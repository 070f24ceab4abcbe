use arraysql::parser::{
    self,
    error::ErrorKind,
    query::{BinaryOperation, Expression, Identifier, QueryType, UnaryOperation},
};

#[test]
fn reading_test_basic_read() {
    let mut p = parser::Parser::new();
    p.set_query("READ STRUCTURED (name) ON users ON my_database;".to_string())
        .parse()
        .unwrap();

    assert_eq!(p.query_data._type, QueryType::Read);
    assert_eq!(
        p.query_data.read_fields,
        vec![Identifier::Field("name".to_string())]
    );
    assert_eq!(
        p.query_data.table_name,
        Identifier::StringLiteral("users".to_string())
    );
    assert_eq!(
        p.query_data.db_name,
        Identifier::StringLiteral("my_database".to_string())
    );
}

#[test]
fn reading_test_multiple_field() {
    let mut p = parser::Parser::new();
    p.set_query(
        "READ STRUCTURED (name, age, known_languages) ON users ON my_database;".to_string(),
    )
    .parse()
    .unwrap();

    assert_eq!(
        p.query_data.read_fields,
        vec![
            Identifier::Field("name".to_string()),
            Identifier::Field("age".to_string()),
            Identifier::Field("known_languages".to_string())
        ]
    );
}

#[test]
fn reading_test_where() {
    let mut p = parser::Parser::new();
    p.set_query(
        "READ STRUCTURED (name, age, known_languages) ON users ON my_database WHERE (age >= 13);"
            .to_string(),
    )
    .parse()
    .unwrap();

    assert_eq!(
        p.query_data.conditions,
        Expression::Binary(
            BinaryOperation::GreaterThanEqualTo,
            Box::new((
                Expression::Identifier(Identifier::Field("age".to_string())),
                Expression::Identifier(Identifier::IntLiteral(13))
            ))
        )
    );
}

#[test]
fn test_where_advanced() {
    let mut p = parser::Parser::new();
    p.set_query(
        "READ STRUCTURED (name, age) ON users ON my_database WHERE (age >= 13 AND EXISTS name);"
            .to_string(),
    )
    .parse()
    .unwrap();

    assert_eq!(
        p.query_data.conditions,
        Expression::Binary(
            BinaryOperation::And,
            Box::new((
                Expression::Binary(
                    BinaryOperation::GreaterThanEqualTo,
                    Box::new((
                        Expression::Identifier(Identifier::Field("age".to_string())),
                        Expression::Identifier(Identifier::IntLiteral(13))
                    ))
                ),
                Expression::Unary(
                    UnaryOperation::Exists,
                    Box::new(Expression::Identifier(Identifier::Field(
                        "name".to_string()
                    )))
                )
            ))
        )
    );

    p.reset();
    p.set_query(
        "READ STRUCTURED (name, age) ON users ON my_database WHERE (EXISTS name AND age >= 13 OR age < 3);"
            .to_string(),
    )
    .parse()
    .unwrap();

    assert_eq!(
        p.query_data.conditions,
        Expression::Binary(
            BinaryOperation::And,
            Box::new((
                Expression::Unary(
                    UnaryOperation::Exists,
                    Box::new(Expression::Identifier(Identifier::Field(
                        "name".to_string()
                    )))
                ),
                Expression::Binary(
                    BinaryOperation::Or,
                    Box::new((
                        Expression::Binary(
                            BinaryOperation::GreaterThanEqualTo,
                            Box::new((
                                Expression::Identifier(Identifier::Field("age".to_string())),
                                Expression::Identifier(Identifier::IntLiteral(13))
                            ))
                        ),
                        Expression::Binary(
                            BinaryOperation::LesserThan,
                            Box::new((
                                Expression::Identifier(Identifier::Field("age".to_string())),
                                Expression::Identifier(Identifier::IntLiteral(3))
                            ))
                        )
                    )),
                )
            ))
        )
    );
}

#[test]
fn where_without_parentheses_folds_connector_at_root() {
    let mut p = parser::Parser::new();
    p.set_query("READ STRUCTURED (name, age) ON users ON db WHERE age >= 13 AND EXISTS name;".to_string())
        .parse()
        .unwrap();
    assert_eq!(
        p.query_data.conditions,
        Expression::Binary(
            BinaryOperation::And,
            Box::new((
                Expression::Binary(
                    BinaryOperation::GreaterThanEqualTo,
                    Box::new((
                        Expression::Identifier(Identifier::Field("age".to_string())),
                        Expression::Identifier(Identifier::IntLiteral(13))
                    ))
                ),
                Expression::Unary(
                    UnaryOperation::Exists,
                    Box::new(Expression::Identifier(Identifier::Field("name".to_string())))
                )
            ))
        )
    );
    assert_eq!(p.location, p.query.len());
}

#[test]
fn read_without_where_has_empty_condition() {
    let mut p = parser::Parser::new();
    p.set_query("READ STRUCTURED (a) ON t ON d;".to_string()).parse().unwrap();
    assert_eq!(p.query_data.conditions, Expression::Empty);
}

#[test]
fn where_value_after_value_fails() {
    let mut p = parser::Parser::new();
    let e = p
        .set_query("READ STRUCTURED (a) ON t ON d WHERE age name;".to_string())
        .parse()
        .unwrap_err();
    assert_eq!(e.kind, ErrorKind::IdentifierAfterIdentifier);
    assert_eq!(e.offset, 36);
}

#[test]
fn where_with_open_operand_fails() {
    let mut p = parser::Parser::new();
    let e = p
        .set_query("READ STRUCTURED (a) ON t ON d WHERE age >=;".to_string())
        .parse()
        .unwrap_err();
    assert_eq!(e.kind, ErrorKind::MissingIdentifier);
}

#[test]
fn read_field_that_is_a_number_fails() {
    let mut p = parser::Parser::new();
    let e = p
        .set_query("READ STRUCTURED (123) ON t ON d;".to_string())
        .parse()
        .unwrap_err();
    assert_eq!(e.kind, ErrorKind::NotAnIdentifier);
    assert_eq!(e.offset, 17);
}

#[test]
fn read_without_semicolon_in_condition_fails() {
    let mut p = parser::Parser::new();
    let e = p
        .set_query("READ STRUCTURED (a) ON t ON d WHERE a = 1".to_string())
        .parse()
        .unwrap_err();
    assert_eq!(e.kind, ErrorKind::MissingIdentifier);
}
