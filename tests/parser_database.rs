use arraysql::parser::constants::Keyword;
use arraysql::parser::{self, error::ErrorKind, query::Identifier, step::Step};

#[test]
fn database_creation_test_database_creation() {
    let mut p = parser::Parser::new();

    p.set_query("DATABASE my_database;".to_string()).parse().unwrap();

    assert_eq!(
        p.query_data._type,
        parser::query::QueryType::DatabaseCreation
    );
    assert_eq!(
        p.query_data.db_name,
        Identifier::StringLiteral("my_database".to_string())
    );
}

#[test]
fn test_lowercase_database_creation() {
    let mut p = parser::Parser::new();
    p.set_query("database my_lowercase_database;".to_string())
        .parse()
        .unwrap();

    assert_eq!(
        p.query_data._type,
        parser::query::QueryType::DatabaseCreation
    );
    assert_eq!(
        p.query_data.db_name,
        Identifier::StringLiteral("my_lowercase_database".to_string())
    );
}

#[test]
fn test_failed_database_creation() {
    let mut p = parser::Parser::new();
    let e = p.set_query("database;".to_string()).parse().unwrap_err();
    assert_eq!(e.kind, ErrorKind::MissingIdentifier);
    assert_eq!(e.offset, 8);
}

#[test]
fn test_invalid_database_identifier() {
    let mut p = parser::Parser::new();
    let e = p.set_query("database --;".to_string()).parse().unwrap_err();
    assert_eq!(e.kind, ErrorKind::MissingIdentifier);
    assert_eq!(e.offset, 9);
}

#[test]
fn test_database_with_database_in_name() {
    let mut p = parser::Parser::new();
    p.set_query("database database_is_cool;".to_string())
        .parse()
        .unwrap();

    assert_eq!(
        p.query_data.db_name,
        Identifier::StringLiteral("database_is_cool".to_string())
    );
}

#[test]
fn database_statement_consumes_whole_text() {
    let mut p = parser::Parser::new();
    let q = "DATABASE shop_2;";
    p.set_query(q.to_string()).parse().unwrap();
    assert_eq!(p.location, q.len());
    assert_eq!(p.step, Step::End);
}

#[test]
fn database_without_semicolon_fails() {
    let mut p = parser::Parser::new();
    let e = p.set_query("DATABASE shop".to_string()).parse().unwrap_err();
    assert_eq!(e.kind, ErrorKind::UnexpectedToken);
    assert_eq!(e.offset, 13);
}

#[test]
fn unknown_statement_fails() {
    let mut p = parser::Parser::new();
    let e = p.set_query("SELECT x;".to_string()).parse().unwrap_err();
    assert_eq!(e.kind, ErrorKind::UnknownStatement);
    assert_eq!(e.offset, 0);
}

#[test]
fn leading_spaces_are_skipped() {
    let mut p = parser::Parser::new();
    p.set_query("  DATABASE x;".to_string()).parse().unwrap();
    assert_eq!(p.query_data.db_name, Identifier::StringLiteral("x".to_string()));
}

#[test]
fn reset_forgets_previous_statement() {
    let mut p = parser::Parser::new();
    p.set_query(
        "TABLE t ON d STRUCTURED (UINT(1) id) CONSTRAINED (ON id EXISTS) MODE FREAD;".to_string(),
    )
    .parse()
    .unwrap();
    assert_eq!(p.query_data.fields.len(), 1);
    p.reset();
    assert_eq!(p.query, "");
    assert_eq!(p.location, 0);
    assert_eq!(p.step, Step::Start);
    p.set_query("DATABASE other;".to_string()).parse().unwrap();
    assert!(p.query_data.fields.is_empty());
    assert!(p.query_data.constraints.is_empty());
    assert!(p.query_data.modes.is_empty());
    assert_eq!(p.query_data.conditions, parser::query::Expression::Empty);
    assert_eq!(p.query_data.db_name, Identifier::StringLiteral("other".to_string()));
}

#[test]
fn error_message_names_the_failure() {
    let mut p = parser::Parser::new();
    let e = p.set_query("DATABASE;".to_string()).parse().unwrap_err();
    assert!(e.message().contains("identifier"));
}

#[test]
fn unknown_statement_names_found_token() {
    let mut p = parser::Parser::new();
    let e = p.set_query("SELECT x;".to_string()).parse().unwrap_err();
    assert_eq!(e.expected, None);
    assert_eq!(e.found_token(&p.query), "SELECT");
    assert_eq!(p.query_data._type, parser::query::QueryType::Empty);
}

#[test]
fn missing_keyword_carries_expected_and_found() {
    let mut p = parser::Parser::new();
    let e = p.set_query("TABLE t IN d STRUCTURED (UINT() a);".to_string()).parse().unwrap_err();
    assert_eq!(e.kind, ErrorKind::UnexpectedToken);
    assert_eq!(e.expected, Some(Keyword::On));
    assert_eq!(e.found_token(&p.query), "IN");
    let e = p.set_query("DATABASE shop where".to_string()).parse().unwrap_err();
    assert_eq!(e.expected, Some(Keyword::Semicolon));
    assert_eq!(e.found_token(&p.query), "WHERE");
}

#[test]
fn set_query_keeps_the_cursor() {
    let mut p = parser::Parser::new();
    p.set_query("DATABASE abc;".to_string());
    p.pop();
    assert_eq!(p.location, 9);
    p.set_query("DATABASE xyz;".to_string());
    assert_eq!(p.location, 9);
    assert_eq!(p.pop(), "xyz");
    p.parse().unwrap();
    assert_eq!(p.query_data.db_name, Identifier::StringLiteral("xyz".to_string()));
}
