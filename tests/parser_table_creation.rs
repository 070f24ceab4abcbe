use std::collections::HashMap;

use arraysql::parser::{
    self,
    error::ErrorKind,
    query::{BinaryOperation, Constraint, ConstraintType, Expression, Identifier, Mode},
};

fn make_assertions(
    expected: HashMap<Identifier, Vec<Constraint>>,
    found: HashMap<Identifier, Vec<Constraint>>,
) {
    for (field, constraints) in &found {
        let expected_contraints = &expected[field];
        assert_eq!(constraints, expected_contraints);
    }
}

#[test]
fn basic_test_table_creation() {
    let mut p = parser::Parser::new();

    p.set_query("TABLE my_table ON my_database STRUCTURED (UINT(1) id);".to_string())
        .parse()
        .unwrap();

    assert_eq!(p.query_data._type, parser::query::QueryType::TableCreation);
    assert_eq!(
        p.query_data.db_name,
        Identifier::StringLiteral("my_database".to_string())
    );
    assert_eq!(
        p.query_data.table_name,
        Identifier::StringLiteral("my_table".to_string())
    );
}

#[test]
fn basic_test_table_field_data() {
    let mut p = parser::Parser::new();

    p.set_query("TABLE my_table ON my_database STRUCTURED (UINT(1) id);".to_string())
        .parse()
        .unwrap();

    let field_data = &p.query_data.fields[0];
    let (datatype, options, identifier) = field_data;

    assert_eq!(datatype, &Identifier::Datatype("UINT".to_string()));
    assert_eq!(options, &vec![Identifier::IntLiteral(1)]);
    assert_eq!(identifier, &Identifier::Field("id".to_string()));
}

#[test]
fn basic_test_multiple_fields() {
    let mut p = parser::Parser::new();

    p.set_query(
        "TABLE my_table ON my_database STRUCTURED (UINT(1) id, STRING(64) name);".to_string(),
    )
    .parse()
    .unwrap();

    let expected = [
        (
            Identifier::Datatype("UINT".to_string()),
            vec![Identifier::IntLiteral(1)],
            Identifier::Field("id".to_string()),
        ),
        (
            Identifier::Datatype("STRING".to_string()),
            vec![Identifier::IntLiteral(64)],
            Identifier::Field("name".to_string()),
        ),
    ];

    for (i, (datatype, options, identifier)) in p.query_data.fields.iter().enumerate() {
        let (expected_datatype, expected_options, expected_identifier) = &expected[i];

        assert_eq!(datatype, expected_datatype);

        for (i, option) in options.iter().enumerate() {
            assert_eq!(option, &expected_options[i]);
        }

        assert_eq!(identifier, expected_identifier);
    }
}

#[test]
fn basic_test_no_fields() {
    let mut p = parser::Parser::new();

    let e = p
        .set_query("TABLE my_table ON my_database STRUCTURED ();".to_string())
        .parse()
        .unwrap_err();
    assert_eq!(e.kind, ErrorKind::ExpectedDatatype);
    assert!(e.message().contains("Expected a Datatype"));
}

#[test]
fn basic_test_no_field_identifier() {
    let mut p = parser::Parser::new();

    let e = p
        .set_query("TABLE my_table ON my_database STRUCTURED (UINT(1), STRING(64) name);".to_string())
        .parse()
        .unwrap_err();
    assert_eq!(e.kind, ErrorKind::MissingIdentifier);
}

#[test]
fn basic_test_empty_options() {
    let mut p = parser::Parser::new();

    p.set_query(
        "TABLE my_table ON my_database STRUCTURED (UINT() id, STRING(64) name);".to_string(),
    )
    .parse()
    .unwrap();
}

#[test]
fn basic_test_multiple_options() {
    let mut p = parser::Parser::new();

    p.set_query(
        "TABLE my_table ON my_database STRUCTURED (UINT() id, STRING(64) name, OPTIONS(math, english) favorite_subject);"
        .to_string(),
    )
    .parse()
    .unwrap();

    let expected = [
        (
            Identifier::Datatype("UINT".to_string()),
            vec![],
            Identifier::Field("id".to_string()),
        ),
        (
            Identifier::Datatype("STRING".to_string()),
            vec![Identifier::IntLiteral(64)],
            Identifier::Field("name".to_string()),
        ),
        (
            Identifier::Datatype("OPTIONS".to_string()),
            vec![
                Identifier::StringLiteral("math".to_string()),
                Identifier::StringLiteral("english".to_string()),
            ],
            Identifier::Field("favorite_subject".to_string()),
        ),
    ];

    assert_eq!(p.query_data.fields.len(), expected.len());
    for (i, (datatype, options, identifier)) in p.query_data.fields.iter().enumerate() {
        let (expected_datatype, expected_options, expected_identifier) = &expected[i];

        assert_eq!(datatype, expected_datatype);

        for (i, option) in options.iter().enumerate() {
            assert_eq!(option, &expected_options[i]);
        }

        assert_eq!(identifier, expected_identifier);
    }
}

#[test]
fn table_creation_test_table_creation() {
    let mut p = parser::Parser::default();

    p.set_query("TABLE my_table ON my_database STRUCTURED (UINT(1) id);".to_string())
        .parse()
        .unwrap();

    assert_eq!(p.query_data._type, parser::query::QueryType::TableCreation);
    assert_eq!(p.query_data.db_name, Identifier::StringLiteral("my_database".to_string()));
    assert_eq!(p.query_data.table_name, Identifier::StringLiteral("my_table".to_string()));
}

#[test]
fn table_creation_test_table_field_data() {
    let mut p = parser::Parser::default();

    p.set_query("TABLE my_table ON my_database STRUCTURED (UINT(1) id);".to_string())
        .parse()
        .unwrap();

    let field_data = &p.query_data.fields[0];
    let (datatype, options, identifier) = field_data;

    assert_eq!(datatype, &Identifier::Datatype("UINT".to_string()));
    assert_eq!(options, &vec![Identifier::IntLiteral(1)]);
    assert_eq!(identifier, &Identifier::Field("id".to_string()));
}

#[test]
fn table_creation_test_multiple_fields() {
    let mut p = parser::Parser::default();

    p.set_query(
        "TABLE my_table ON my_database STRUCTURED (UINT(1) id, STRING(64) name);".to_string(),
    )
    .parse()
    .unwrap();

    let expected = [
        ("UINT", vec![1], "id"),
        ("STRING", vec![64], "name"),
    ];

    assert_eq!(p.query_data.fields.len(), expected.len());
    for (i, (datatype, options, identifier)) in p.query_data.fields.iter().enumerate() {
        let (expected_datatype, expected_options, expected_identifier) = &expected[i];

        assert_eq!(datatype, &Identifier::Datatype(expected_datatype.to_string()));

        for (i, option) in options.iter().enumerate() {
            assert_eq!(option, &Identifier::IntLiteral(expected_options[i]));
        }

        assert_eq!(identifier, &Identifier::Field(expected_identifier.to_string()));
    }
}

#[test]
fn table_creation_test_no_fields() {
    let mut p = parser::Parser::default();

    let e = p
        .set_query("TABLE my_table ON my_database STRUCTURED ();".to_string())
        .parse()
        .unwrap_err();
    assert!(e.message().contains("Expected a Datatype"));
}

#[test]
fn table_creation_test_no_field_identifier() {
    let mut p = parser::Parser::default();

    let e = p
        .set_query("TABLE my_table ON my_database STRUCTURED (UINT(1), STRING(64) name);".to_string())
        .parse()
        .unwrap_err();
    assert!(e.message().contains("Expected an identifier"));
}

#[test]
fn table_creation_test_empty_options() {
    let mut p = parser::Parser::default();

    p.set_query(
        "TABLE my_table ON my_database STRUCTURED (UINT() id, STRING(64) name);".to_string(),
    )
    .parse()
    .unwrap();
}

#[test]
fn table_creation_test_multiple_options() {
    let mut p = parser::Parser::default();

    p.set_query(
        "TABLE my_table ON my_database STRUCTURED (UINT() id, STRING(64) name, OPTIONS(math, english) favorite_subject);".to_string(),
    )
    .parse()
    .unwrap();

    let expected = [
        ("UINT", vec![], "id"),
        ("STRING", vec![Identifier::IntLiteral(64)], "name"),
        (
            "OPTIONS",
            vec![
                Identifier::StringLiteral("math".to_string()),
                Identifier::StringLiteral("english".to_string()),
            ],
            "favorite_subject",
        ),
    ];

    for (i, (datatype, options, identifier)) in p.query_data.fields.iter().enumerate() {
        let (expected_datatype, expected_options, expected_identifier) = &expected[i];

        assert_eq!(datatype, &Identifier::Datatype(expected_datatype.to_string()));

        for (i, option) in options.iter().enumerate() {
            assert_eq!(option, &expected_options[i]);
        }

        assert_eq!(identifier, &Identifier::Field(expected_identifier.to_string()));
    }
}

#[test]
fn table_creation_test_single_mode() {
    let mut p = parser::Parser::default();

    p.set_query(
        "TABLE my_table \
        ON my_database \
        STRUCTURED (\
            UINT() id,\
            STRING(64) name,\
            OPTIONS(math, english) favorite_subject\
        )\
        MODE FREAD;"
            .to_string(),
    )
    .parse()
    .unwrap();

    assert_eq!(p.query_data.modes, vec![Mode::Fread,]);
}

#[test]
fn mode_test_mode() {
    let mut p = parser::Parser::new();

    p.set_query(
        "TABLE my_table ON my_database STRUCTURED (UINT() id, STRING(64) name, OPTIONS(math, english) favorite_subject) MODE FREAD FADD;"
            .to_string(),
    )
    .parse()
    .unwrap();

    assert_eq!(p.query_data.modes, vec![Mode::Fread, Mode::Fadd]);
}

#[test]
fn mode_test_single_mode() {
    let mut p = parser::Parser::new();

    p.set_query(
        "TABLE my_table ON my_database STRUCTURED (UINT() id, STRING(64) name, OPTIONS(math, english) favorite_subject) MODE FREAD;"
            .to_string(),
    )
    .parse()
    .unwrap();

    assert_eq!(p.query_data.modes, vec![Mode::Fread,]);
}

#[test]
fn test_no_mode_with_kw() {
    let mut p = parser::Parser::new();

    let e = p
        .set_query(
            "TABLE my_table ON my_database STRUCTURED (UINT() id, STRING(64) name, OPTIONS(math, english) favorite_subject) MODE;"
                .to_string(),
        )
        .parse()
        .unwrap_err();
    assert_eq!(e.kind, ErrorKind::ExpectedMode);
}

#[test]
fn constraints_test_basic_contraints() {
    let mut p = parser::Parser::new();

    p.set_query(
        "TABLE my_table ON my_database STRUCTURED (UINT() id, STRING(64) name, OPTIONS(math, english) favorite_subject) CONSTRAINED (ON id EXISTS PKEY UNIQUE INC, ON name EXISTS, ON favorite_subject DEFAULT('math')) MODE FREAD FADD;"
            .to_string(),
    )
    .parse()
    .unwrap();

    let expected = HashMap::from([
        (
            Identifier::Field("id".to_string()),
            vec![
                Constraint {
                    constraint_type: ConstraintType::Exists,
                    options: vec![],
                },
                Constraint {
                    constraint_type: ConstraintType::PKey,
                    options: vec![],
                },
                Constraint {
                    constraint_type: ConstraintType::Unique,
                    options: vec![],
                },
                Constraint {
                    constraint_type: ConstraintType::Inc,
                    options: vec![],
                },
            ],
        ),
        (
            Identifier::Field("name".to_string()),
            vec![Constraint {
                constraint_type: ConstraintType::Exists,
                options: vec![],
            }],
        ),
        (
            Identifier::Field("favorite_subject".to_string()),
            vec![Constraint {
                constraint_type: ConstraintType::Default,
                options: vec![Expression::Identifier(Identifier::StringLiteral(
                    "'math'".to_string(),
                ))],
            }],
        ),
    ]);

    assert_eq!(p.query_data.constraints.len(), 3);
    make_assertions(expected, p.query_data.constraints.into_iter().collect());
}

#[test]
fn constraints_test_multiple_constraint_options() {
    let mut p = parser::Parser::new();

    p.set_query(
        "TABLE my_table ON my_database STRUCTURED (UINT() id, STRING(64) name, OPTIONS(math, english) favorite_subject, UINT() max_marks) CONSTRAINED (ON id EXISTS PKEY UNIQUE INC, ON name EXISTS, ON favorite_subject DEFAULT('math'), ON max_marks SUCHTHAT(max_marks <= 80) DEFAULT(0)) MODE FREAD FADD;"
            .to_string(),
    )
    .parse()
    .unwrap();

    let expected = HashMap::from([
        (
            Identifier::Field("id".to_string()),
            vec![
                Constraint {
                    constraint_type: ConstraintType::Exists,
                    options: vec![],
                },
                Constraint {
                    constraint_type: ConstraintType::PKey,
                    options: vec![],
                },
                Constraint {
                    constraint_type: ConstraintType::Unique,
                    options: vec![],
                },
                Constraint {
                    constraint_type: ConstraintType::Inc,
                    options: vec![],
                },
            ],
        ),
        (
            Identifier::Field("name".to_string()),
            vec![Constraint {
                constraint_type: ConstraintType::Exists,
                options: vec![],
            }],
        ),
        (
            Identifier::Field("favorite_subject".to_string()),
            vec![Constraint {
                constraint_type: ConstraintType::Default,
                options: vec![Expression::Identifier(Identifier::StringLiteral(
                    "'math'".to_string(),
                ))],
            }],
        ),
        (
            Identifier::Field("max_marks".to_string()),
            vec![
                Constraint {
                    constraint_type: ConstraintType::Suchthat,
                    options: vec![Expression::Binary(
                        BinaryOperation::LesserThanEqualTo,
                        Box::new((
                            Expression::Identifier(Identifier::Field("max_marks".to_string())),
                            Expression::Identifier(Identifier::IntLiteral(80)),
                        )),
                    )],
                },
                Constraint {
                    constraint_type: ConstraintType::Default,
                    options: vec![Expression::Identifier(Identifier::IntLiteral(0))],
                },
            ],
        ),
    ]);

    assert_eq!(p.query_data.constraints.len(), 4);
    make_assertions(expected, p.query_data.constraints.into_iter().collect());
}

#[test]
fn constraint_grouping_by_field() {
    let mut p = parser::Parser::new();
    p.set_query(
        "TABLE t ON d STRUCTURED (UINT() id, STRING(8) name) CONSTRAINED (ON id EXISTS PKEY UNIQUE INC, ON name EXISTS);"
            .to_string(),
    )
    .parse()
    .unwrap();
    let c = |t| Constraint { constraint_type: t, options: vec![] };
    assert_eq!(
        p.query_data.constraints,
        vec![
            (
                Identifier::Field("id".to_string()),
                vec![
                    c(ConstraintType::Exists),
                    c(ConstraintType::PKey),
                    c(ConstraintType::Unique),
                    c(ConstraintType::Inc)
                ]
            ),
            (Identifier::Field("name".to_string()), vec![c(ConstraintType::Exists)]),
        ]
    );
}

#[test]
fn field_list_in_declaration_order() {
    let mut p = parser::Parser::new();
    p.set_query("TABLE t ON d STRUCTURED (INT(4, 2) a, OPTIONS(x) b, TIMESTAMP() c);".to_string())
        .parse()
        .unwrap();
    assert_eq!(
        p.query_data.fields,
        vec![
            (
                Identifier::Datatype("INT".to_string()),
                vec![Identifier::IntLiteral(4), Identifier::IntLiteral(2)],
                Identifier::Field("a".to_string())
            ),
            (
                Identifier::Datatype("OPTIONS".to_string()),
                vec![Identifier::StringLiteral("x".to_string())],
                Identifier::Field("b".to_string())
            ),
            (
                Identifier::Datatype("TIMESTAMP".to_string()),
                vec![],
                Identifier::Field("c".to_string())
            ),
        ]
    );
}

#[test]
fn digits_only_field_name_fails() {
    let mut p = parser::Parser::new();
    let e = p
        .set_query("TABLE t ON d STRUCTURED (UINT() 123);".to_string())
        .parse()
        .unwrap_err();
    assert_eq!(e.kind, ErrorKind::DigitsOnlyFieldName);
    assert_eq!(e.offset, 32);
    assert!(e.message().contains("Field name cannot be only digits."));
}

#[test]
fn unknown_datatype_fails() {
    let mut p = parser::Parser::new();
    let e = p
        .set_query("TABLE t ON d STRUCTURED (uint() a);".to_string())
        .parse()
        .unwrap_err();
    assert_eq!(e.kind, ErrorKind::ExpectedDatatype);
    assert_eq!(e.offset, 25);
}

#[test]
fn non_integer_option_fails() {
    let mut p = parser::Parser::new();
    let e = p
        .set_query("TABLE t ON d STRUCTURED (UINT(x) a);".to_string())
        .parse()
        .unwrap_err();
    assert_eq!(e.kind, ErrorKind::NotAnInteger);
    let e = p
        .set_query("TABLE t ON d STRUCTURED (UINT(2147483648) a);".to_string())
        .parse()
        .unwrap_err();
    assert_eq!(e.kind, ErrorKind::NotAnInteger);
    p.set_query("TABLE t ON d STRUCTURED (UINT(2147483647) a);".to_string())
        .parse()
        .unwrap();
    assert_eq!(p.query_data.fields[0].1, vec![Identifier::IntLiteral(2147483647)]);
}

#[test]
fn unknown_constraint_fails() {
    let mut p = parser::Parser::new();
    let e = p
        .set_query("TABLE t ON d STRUCTURED (UINT() a) CONSTRAINED (ON a KEEP);".to_string())
        .parse()
        .unwrap_err();
    assert_eq!(e.kind, ErrorKind::ExpectedConstraint);
}

#[test]
fn constraints_then_semicolon() {
    let mut p = parser::Parser::new();
    p.set_query("TABLE t ON d STRUCTURED (UINT() a) CONSTRAINED (ON a UNIQUE);".to_string())
        .parse()
        .unwrap();
    assert!(p.query_data.modes.is_empty());
    assert_eq!(p.location, p.query.len());
}

#[test]
fn missing_on_fails() {
    let mut p = parser::Parser::new();
    let e = p
        .set_query("TABLE t IN d STRUCTURED (UINT() a);".to_string())
        .parse()
        .unwrap_err();
    assert_eq!(e.kind, ErrorKind::UnexpectedToken);
    assert_eq!(e.offset, 8);
}

#[test]
fn mode_repeats_are_kept() {
    let mut p = parser::Parser::new();
    p.set_query("TABLE t ON d STRUCTURED (UINT() a) mode lmem fdelete lmem;".to_string())
        .parse()
        .unwrap();
    assert_eq!(p.query_data.modes, vec![Mode::Lmem, Mode::Fdelete, Mode::Lmem]);
}

#[test]
fn options_word_beginning_with_keyword_is_read_as_keyword() {
    let mut p = parser::Parser::new();
    let e = p
        .set_query("TABLE t ON d STRUCTURED (OPTIONS(one) f);".to_string())
        .parse()
        .unwrap_err();
    assert_eq!(e.kind, ErrorKind::UnexpectedToken);
    assert_eq!(e.offset, 35);
    p.set_query("TABLE t ON d STRUCTURED (OPTIONS(math, 7) f);".to_string())
        .parse()
        .unwrap();
    assert_eq!(
        p.query_data.fields[0].1,
        vec![
            Identifier::StringLiteral("math".to_string()),
            Identifier::StringLiteral("7".to_string())
        ]
    );
}
