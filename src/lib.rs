//! A lexer and explicit-state parser for a small SQL-like statement language:
//! database and table creation, row insertion and conditional reads.

pub mod engine;
pub mod parser;
