use vstd::prelude::*;

use crate::parser::query::IdentView;
use crate::parser::query::Identifier;
use crate::parser::query::QueryType;
use crate::parser::Parser;

verus! {

/// What executing a parsed statement asks of the storage.
#[derive(Debug, PartialEq, Eq)]
pub enum EngineAction {
    /// Create the namespace of a new database.
    CreateDatabase(String),
    /// Create an empty table, named second, in the database named first.
    CreateTable(String, String),
    /// The statement needs no storage change.
    Nothing,
}

/// The name held by a string-literal identifier.
pub open spec fn literal_name(i: IdentView) -> Option<Seq<char>> {
    match i {
        IdentView::Str(s) => Some(s),
        _ => None,
    }
}

fn name_of(i: &Identifier) -> (r: Option<String>)
    ensures
        match literal_name(i.view()) {
            Some(s) => r is Some && r->0@ == s,
            None => r is None,
        },
{
    match i {
        Identifier::StringLiteral(s) => Some(s.clone()),
        _ => None,
    }
}

/// The storage action that the parsed statement asks for: a database
/// creation creates its database, a table creation its table; inserts and
/// reads change nothing.  `None` when nothing was parsed, or when a name the
/// action needs is missing.
pub fn engine(parser: &Parser) -> (r: Option<EngineAction>)
    ensures
        match parser.query_data._type {
            QueryType::Empty => r is None,
            QueryType::DatabaseCreation => match literal_name(parser.query_data.db_name.view()) {
                Some(db) => r matches Some(EngineAction::CreateDatabase(n)) && n@ == db,
                None => r is None,
            },
            QueryType::TableCreation => match (
                literal_name(parser.query_data.db_name.view()),
                literal_name(parser.query_data.table_name.view()),
            ) {
                (Some(db), Some(t)) => r matches Some(EngineAction::CreateTable(n, m)) && n@ == db
                    && m@ == t,
                _ => r is None,
            },
            _ => r == Some(EngineAction::Nothing),
        },
{
    match parser.query_data._type {
        QueryType::Empty => None,
        QueryType::DatabaseCreation => match name_of(&parser.query_data.db_name) {
            Some(db) => Some(EngineAction::CreateDatabase(db)),
            None => None,
        },
        QueryType::TableCreation => match (
            name_of(&parser.query_data.db_name),
            name_of(&parser.query_data.table_name),
        ) {
            (Some(db), Some(t)) => Some(EngineAction::CreateTable(db, t)),
            _ => None,
        },
        _ => Some(EngineAction::Nothing),
    }
}

} // verus!
