use arraysql::parser::error::ErrorKind;
use arraysql::parser::query::{string_to_binop, string_to_unop, BinaryOperation, Identifier, UnaryOperation};
use arraysql::parser::query_types::type_checker::{
    as_identifier, check_array, check_binop, check_field, check_identifier, check_int_literal,
    check_operator, check_string_literal, check_unop, split_array,
};

fn s(x: &str) -> String {
    x.to_string()
}

#[test]
fn split_array_keeps_quotes() {
    assert_eq!(split_array(&s("['a', 'bc']")), vec!["'a'", "'bc'"]);
    assert_eq!(split_array(&s("['a', 'bc', 'def']")), vec!["'a'", "'bc'", "'def'"]);
    assert_eq!(split_array(&s("[1, 2, 3]")), vec!["1", "2", "3"]);
}

#[test]
fn split_array_edge_cases() {
    assert!(split_array(&s("[]")).is_empty());
    assert!(split_array(&s("[")).is_empty());
    assert_eq!(split_array(&s("['a, b', c]")), vec!["'a, b'", "c"]);
    assert_eq!(split_array(&s("[ x , , y ]")), vec!["x", "y"]);
}

#[test]
fn literal_checks() {
    assert!(check_int_literal(&s("0123")));
    assert!(check_int_literal(&s("")));
    assert!(!check_int_literal(&s("12a")));
    assert!(check_string_literal(&s("'x'")));
    assert!(check_string_literal(&s("'")));
    assert!(!check_string_literal(&s("x'")));
    assert!(check_array(&s("[1]")));
    assert!(!check_array(&s("[1")));
}

#[test]
fn operator_checks() {
    assert!(check_operator(&s(">=")));
    assert!(check_operator(&s("AND")));
    assert!(!check_operator(&s("ON")));
    assert!(check_binop(&s("*")));
    assert!(!check_binop(&s("OR")));
    assert!(check_unop(&s("~")));
    assert!(check_unop(&s("EXISTS")));
    assert!(!check_unop(&s("+")));
    assert!(check_identifier(&s("age")));
    assert!(check_identifier(&s("12")));
    assert!(!check_identifier(&s("NOT")));
    assert!(check_field(&s("age")));
    assert!(!check_field(&s("12")));
    assert!(!check_field(&s("'x'")));
    assert!(!check_field(&s("ABS")));
}

#[test]
fn classify_tokens() {
    assert_eq!(as_identifier(&s("42")), Ok(Identifier::IntLiteral(42)));
    assert_eq!(as_identifier(&s("'hi'")), Ok(Identifier::StringLiteral(s("'hi'"))));
    assert_eq!(as_identifier(&s("name")), Ok(Identifier::Field(s("name"))));
    assert_eq!(
        as_identifier(&s("[1, 'a', [2]]")),
        Ok(Identifier::Array(vec![
            Identifier::IntLiteral(1),
            Identifier::StringLiteral(s("'a'")),
            Identifier::Array(vec![Identifier::IntLiteral(2)])
        ]))
    );
    assert_eq!(as_identifier(&s("+")), Err(ErrorKind::NotAnIdentifier));
    assert_eq!(as_identifier(&s("")), Err(ErrorKind::MissingIdentifier));
    assert_eq!(as_identifier(&s("99999999999")), Err(ErrorKind::NotAnInteger));
    assert_eq!(as_identifier(&s("[1, -]")), Err(ErrorKind::NotAnIdentifier));
}

#[test]
fn operator_names() {
    assert_eq!(string_to_unop(&s("ABS")), Some(UnaryOperation::Abs));
    assert_eq!(string_to_unop(&s("NEG")), Some(UnaryOperation::Negative));
    assert_eq!(string_to_unop(&s("NOT")), Some(UnaryOperation::LogicalNot));
    assert_eq!(string_to_unop(&s("~")), Some(UnaryOperation::BitwiseNot));
    assert_eq!(string_to_unop(&s("EXISTS")), Some(UnaryOperation::Exists));
    assert_eq!(string_to_unop(&s("+")), None);
    assert_eq!(string_to_binop(&s("+")), Some(BinaryOperation::Addition));
    assert_eq!(string_to_binop(&s("!=")), Some(BinaryOperation::NotEquals));
    assert_eq!(string_to_binop(&s("<")), Some(BinaryOperation::LesserThan));
    assert_eq!(string_to_binop(&s("OR")), Some(BinaryOperation::Or));
    assert_eq!(string_to_binop(&s("abs")), None);
}
