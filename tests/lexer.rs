use arraysql::engine::{engine, EngineAction};
use arraysql::parser::Parser;

fn at(q: &str) -> Parser {
    let mut p = Parser::new();
    p.set_query(q.to_string());
    p
}

#[test]
fn pop_normalises_keywords_and_skips_spaces() {
    let mut p = at("database  my_db;");
    assert_eq!(p.peek(), "DATABASE");
    assert_eq!(p.pop(), "DATABASE");
    assert_eq!(p.location, 10);
    assert_eq!(p.pop(), "my_db");
    assert_eq!(p.pop(), ";");
    assert_eq!(p.pop(), "");
    assert_eq!(p.location, 16);
}

#[test]
fn longest_operator_wins() {
    let mut p = at(">= > <= != =");
    assert_eq!(p.pop(), ">=");
    assert_eq!(p.pop(), ">");
    assert_eq!(p.pop(), "<=");
    assert_eq!(p.pop(), "!=");
    assert_eq!(p.pop(), "=");
}

#[test]
fn literals_are_returned_whole() {
    let mut p = at("['a', 'b]'] 'x\\'y' rest");
    assert_eq!(p.pop(), "['a', 'b]");
    let mut p = at("[1, 2] 'x\\'y' rest");
    assert_eq!(p.pop(), "[1, 2]");
    assert_eq!(p.pop(), "'x\\'y'");
    assert_eq!(p.pop(), "rest");
}

#[test]
fn identifiers_ignore_keywords() {
    let mut p = at("order_id, x");
    assert_eq!(p.peek_identifier(), "order_id");
    assert_eq!(p.peek(), "OR");
    assert_eq!(p.pop_identifier(), "order_id");
    assert_eq!(p.pop_identifier(), "");
    assert_eq!(p.pop(), ",");
    assert_eq!(p.pop_identifier(), "x");
}

#[test]
fn name_characters_follow_the_word_class() {
    let mut p = at("a_b*9-c");
    assert_eq!(p.pop_identifier(), "a_b*9");
    assert_eq!(p.location, 5);
}

#[test]
fn unterminated_literal_is_empty() {
    let mut p = at("'abc");
    assert_eq!(p.pop(), "");
    assert_eq!(p.location, 0);
}

#[test]
fn engine_actions() {
    let mut p = Parser::new();
    assert_eq!(engine(&p), None);
    p.set_query("DATABASE shop;".to_string()).parse().unwrap();
    assert_eq!(engine(&p), Some(EngineAction::CreateDatabase("shop".to_string())));
    p.reset();
    p.set_query("TABLE users ON shop STRUCTURED (UINT(1) id);".to_string()).parse().unwrap();
    assert_eq!(
        engine(&p),
        Some(EngineAction::CreateTable("shop".to_string(), "users".to_string()))
    );
    p.reset();
    p.set_query("READ STRUCTURED (id) ON users ON shop;".to_string()).parse().unwrap();
    assert_eq!(engine(&p), Some(EngineAction::Nothing));
}
