use arraysql::parser::{
    self,
    error::ErrorKind,
    query::{Identifier, QueryType},
};

#[test]
fn test_basic_insert() {
    let mut p = parser::Parser::new();
    p.set_query(
        "INSERT STRUCTURED ('my_data') ON my_table STRUCTURED (field1) ON my_database;".to_string(),
    )
    .parse()
    .unwrap();

    assert_eq!(p.query_data._type, QueryType::Insert);
    assert_eq!(
        p.query_data.table_name,
        Identifier::StringLiteral("my_table".to_string())
    );
    assert_eq!(
        p.query_data.db_name,
        Identifier::StringLiteral("my_database".to_string())
    );
    assert_eq!(
        p.query_data.inserted_value,
        vec![Identifier::StringLiteral("'my_data'".to_string())]
    );
    assert_eq!(
        p.query_data.inserted_field,
        vec![Identifier::Field("field1".to_string())]
    );
}

#[test]
fn inserting_test_multiple_fields() {
    let mut p = parser::Parser::new();
    p.set_query(
        "INSERT STRUCTURED ('Tathya', 15, ['Rust', 'Python']) ON my_table STRUCTURED (name, age, known_languages) ON my_database;"
            .to_string(),
    )
    .parse()
    .unwrap();

    assert_eq!(
        p.query_data.inserted_value,
        vec![
            Identifier::StringLiteral("'Tathya'".to_string()),
            Identifier::IntLiteral(15),
            Identifier::Array(vec![
                Identifier::StringLiteral("'Rust'".to_string()),
                Identifier::StringLiteral("'Python'".to_string())
            ])
        ]
    );
}

#[test]
fn insert_end_to_end() {
    let mut p = parser::Parser::new();
    p.set_query("INSERT STRUCTURED ('a', 3, [1,2]) ON t STRUCTURED (f1, f2, f3) ON db;".to_string())
        .parse()
        .unwrap();
    assert_eq!(
        p.query_data.inserted_value,
        vec![
            Identifier::StringLiteral("'a'".to_string()),
            Identifier::IntLiteral(3),
            Identifier::Array(vec![Identifier::IntLiteral(1), Identifier::IntLiteral(2)])
        ]
    );
    assert_eq!(
        p.query_data.inserted_field,
        vec![
            Identifier::Field("f1".to_string()),
            Identifier::Field("f2".to_string()),
            Identifier::Field("f3".to_string())
        ]
    );
    assert_eq!(p.query_data.table_name, Identifier::StringLiteral("t".to_string()));
    assert_eq!(p.query_data.db_name, Identifier::StringLiteral("db".to_string()));
}

#[test]
fn insert_unterminated_string_fails() {
    let mut p = parser::Parser::new();
    let e = p
        .set_query("INSERT STRUCTURED ('abc) ON t STRUCTURED (f) ON d;".to_string())
        .parse()
        .unwrap_err();
    assert_eq!(e.kind, ErrorKind::UnterminatedLiteral);
    assert_eq!(e.offset, 19);
}

#[test]
fn insert_escaped_quote_stays_in_string() {
    let mut p = parser::Parser::new();
    p.set_query("INSERT STRUCTURED ('it\\'s') ON t STRUCTURED (f) ON d;".to_string())
        .parse()
        .unwrap();
    assert_eq!(
        p.query_data.inserted_value,
        vec![Identifier::StringLiteral("'it\\'s'".to_string())]
    );
}

#[test]
fn insert_operator_value_fails() {
    let mut p = parser::Parser::new();
    let e = p
        .set_query("INSERT STRUCTURED (NOT) ON t STRUCTURED (f) ON d;".to_string())
        .parse()
        .unwrap_err();
    assert_eq!(e.kind, ErrorKind::NotAnIdentifier);
}

#[test]
fn insert_lists_are_not_paired_by_length() {
    let mut p = parser::Parser::new();
    p.set_query("INSERT STRUCTURED (1, 2) ON t STRUCTURED (f) ON d;".to_string())
        .parse()
        .unwrap();
    assert_eq!(p.query_data.inserted_value.len(), 2);
    assert_eq!(p.query_data.inserted_field.len(), 1);
}
