use qedc::ast::BinOp;
use qedc::ast::Field;
use qedc::ast::Span;
use qedc::ast::Term;
use qedc::ast::Type;
use qedc::ast::TypeDefKind;
use qedc::parser::parse;
use qedc::types::OperandSide;
use qedc::types::TypeChecker;
use qedc::types::TypeEnv;
use qedc::types::TypeError;

#[test]
fn test_type_env_creation() {
    let env = TypeEnv::new();
    assert_eq!(env.types.len(), 0);
}

#[test]
fn mod_test_type_env_creation() {
    let env = TypeEnv::new();
    assert_eq!(env.types.len(), 0);
}

#[test]
fn test_add_type() {
    let mut env = TypeEnv::new();
    let def = TypeDefKind::Product {
        constructor: "person".to_string(),
        fields: vec![
            Field {
                name: "name".to_string(),
                ty: Type::Named("String".to_string()),
            },
            Field {
                name: "age".to_string(),
                ty: Type::Named("Int".to_string()),
            },
        ],
    };
    assert!(env.add_type("Person".to_string(), def).is_ok());

    // Verify constructor was registered
    let info = env.get_constructor_info("person");
    assert!(info.is_some());
    let (param_types, result_type) = info.unwrap();
    assert_eq!(param_types.len(), 2);
    assert_eq!(result_type, "Person");
}

#[test]
fn mod_test_add_type() {
    let mut env = TypeEnv::new();
    let def = TypeDefKind::Product {
        constructor: "person".to_string(),
        fields: vec![
            Field {
                name: "name".to_string(),
                ty: Type::Named("String".to_string()),
            },
            Field {
                name: "age".to_string(),
                ty: Type::Named("Int".to_string()),
            },
        ],
    };
    assert!(env.add_type("Person".to_string(), def).is_ok());
}

#[test]
fn test_check_valid_program() {
    let source = r#"
        type Person = person(name: String, age: Int)
        rel parent: Person × Person
        parent(person("Alice", 45), person("Bob", 20)).
    "#;

    let program = parse(source).expect("Parse failed");
    let mut checker = TypeChecker::new();
    assert!(checker.check_program(&program).is_ok());
}

#[test]
fn test_check_rule_with_variables() {
    let source = r#"
        type Person = person(name: String, age: Int)
        rel parent: Person × Person
        rel ancestor: Person × Person
        ancestor(X, Y) :- parent(X, Y).
    "#;

    let program = parse(source).expect("Parse failed");
    let mut checker = TypeChecker::new();
    assert!(checker.check_program(&program).is_ok());
}

#[test]
fn test_check_recursive_rule() {
    let source = r#"
        type Person = person(name: String, age: Int)
        rel parent: Person × Person
        rel ancestor: Person × Person
        ancestor(X, Y) :- parent(X, Y).
        ancestor(X, Z) :- parent(X, Y), ancestor(Y, Z).
    "#;

    let program = parse(source).expect("Parse failed");
    let mut checker = TypeChecker::new();
    assert!(checker.check_program(&program).is_ok());
}

#[test]
fn test_check_unknown_relation() {
    let source = r#"
        type Person = person(name: String, age: Int)
        unknown_rel(person("Alice", 45)).
    "#;

    let program = parse(source).expect("Parse failed");
    let mut checker = TypeChecker::new();
    let result = checker.check_program(&program);
    assert!(result.is_err());
    match result.unwrap_err() {
        TypeError::UnknownRelation { name } => assert_eq!(name, "unknown_rel"),
        other => panic!("expected an unknown-relation error, got {:?}", other),
    }
}

#[test]
fn test_check_wrong_arity() {
    let source = r#"
        type Person = person(name: String, age: Int)
        rel parent: Person × Person
        parent(person("Alice", 45)).
    "#;

    let program = parse(source).expect("Parse failed");
    let mut checker = TypeChecker::new();
    let result = checker.check_program(&program);
    assert!(result.is_err());
    match result.unwrap_err() {
        TypeError::ArityMismatch {
            relation,
            expected,
            actual,
        } => {
            assert_eq!(relation, "parent");
            assert_eq!(expected, 2);
            assert_eq!(actual, 1);
        }
        other => panic!("expected an arity error about arguments, got {:?}", other),
    }
}

#[test]
fn test_check_type_mismatch() {
    let source = r#"
        type Person = person(name: String, age: Int)
        rel parent: Person × Person
        parent(person("Alice", 45), 42).
    "#;

    let program = parse(source).expect("Parse failed");
    let mut checker = TypeChecker::new();
    let result = checker.check_program(&program);
    assert!(result.is_err());
}

#[test]
fn test_check_variable_in_fact() {
    let source = r#"
        type Person = person(name: String, age: Int)
        rel parent: Person × Person
        parent(person("Alice", 45), X).
    "#;

    let program = parse(source).expect("Parse failed");
    let mut checker = TypeChecker::new();
    let result = checker.check_program(&program);
    assert!(result.is_err());
    match result.unwrap_err() {
        TypeError::NonGroundFact {
            relation,
            arg_index,
        } => {
            assert_eq!(relation, "parent");
            assert_eq!(arg_index, 2);
        }
        other => panic!("expected a non-ground (variables) error, got {:?}", other),
    }
}

#[test]
fn test_check_query() {
    let source = r#"
        type Person = person(name: String, age: Int)
        rel ancestor: Person × Person
        ?- ancestor(X, Y).
    "#;

    let program = parse(source).expect("Parse failed");
    let mut checker = TypeChecker::new();
    assert!(checker.check_program(&program).is_ok());
}

#[test]
fn test_check_comparison() {
    let source = r#"
        type Person = person(name: String, age: Int)
        rel parent: Person × Person
        rel older_parent: Person × Person
        older_parent(X, Y) :- parent(X, Y), X = person(N1, A1), Y = person(N2, A2), A1 > A2.
    "#;

    let program = parse(source).expect("Parse failed");
    let mut checker = TypeChecker::new();
    // This should work - A1 and A2 are Int from the person constructor
    assert!(checker.check_program(&program).is_ok());
}

#[test]
fn test_check_duplicate_type() {
    let source = "type A = a(x: Int)\ntype A = b(y: Int)";
    let program = parse(source).expect("Parse failed");
    let mut checker = TypeChecker::new();
    match checker.check_program(&program).unwrap_err() {
        TypeError::DuplicateType { name } => assert_eq!(name, "A"),
        other => panic!("expected a duplicate-type error, got {:?}", other),
    }
}

#[test]
fn test_check_duplicate_relation() {
    let source = "rel p: Int\nrel p: Int × Int";
    let program = parse(source).expect("Parse failed");
    let mut checker = TypeChecker::new();
    match checker.check_program(&program).unwrap_err() {
        TypeError::DuplicateRelation { name } => assert_eq!(name, "p"),
        other => panic!("expected a duplicate-relation error, got {:?}", other),
    }
}

#[test]
fn test_check_duplicate_constructor() {
    let source = "type A = mk(x: Int)\ntype B = mk(y: Int)";
    let program = parse(source).expect("Parse failed");
    let mut checker = TypeChecker::new();
    match checker.check_program(&program).unwrap_err() {
        TypeError::DuplicateConstructor { name } => assert_eq!(name, "mk"),
        other => panic!("expected a duplicate-constructor error, got {:?}", other),
    }
}

#[test]
fn test_check_unknown_constructor() {
    let source = "rel p: Person\np(person(1)).";
    let program = parse(source).expect("Parse failed");
    let mut checker = TypeChecker::new();
    match checker.check_program(&program).unwrap_err() {
        TypeError::UnknownConstructor { name } => assert_eq!(name, "person"),
        other => panic!("expected an unknown-constructor error, got {:?}", other),
    }
}

#[test]
fn test_check_unbound_variable_in_comparison() {
    let source = "rel p: Int\np(X) :- X + Y > 0.";
    let program = parse(source).expect("Parse failed");
    let mut checker = TypeChecker::new();
    match checker.check_program(&program).unwrap_err() {
        TypeError::UnboundVariable { name } => assert_eq!(name, "Y"),
        other => panic!("expected an unbound-variable error, got {:?}", other),
    }
}

#[test]
fn test_check_constructor_arity() {
    let source = r#"
        type Person = person(name: String, age: Int)
        rel p: Person
        p(person("Alice")).
    "#;
    let program = parse(source).expect("Parse failed");
    let mut checker = TypeChecker::new();
    match checker.check_program(&program).unwrap_err() {
        TypeError::ConstructorArityMismatch {
            constructor,
            expected,
            actual,
        } => {
            assert_eq!(constructor, "person");
            assert_eq!(expected, 2);
            assert_eq!(actual, 1);
        }
        other => panic!("expected a constructor-arity error, got {:?}", other),
    }
}

#[test]
fn test_check_fact_argument_type() {
    let source = "rel age_of: String × Int\nage_of(\"Alice\", \"old\").";
    let program = parse(source).expect("Parse failed");
    let mut checker = TypeChecker::new();
    match checker.check_program(&program).unwrap_err() {
        TypeError::FactArgumentMismatch {
            relation,
            arg_index,
            expected,
            actual,
        } => {
            assert_eq!(relation, "age_of");
            assert_eq!(arg_index, 2);
            assert_eq!(expected, Type::Named("Int".to_string()));
            assert_eq!(actual, Type::Named("String".to_string()));
        }
        other => panic!("expected a fact-argument error, got {:?}", other),
    }
}

#[test]
fn test_check_goal_term_type_mismatch() {
    let source = "rel p: Int\np(X) :- p(X), \"a\" > 1.";
    let program = parse(source).expect("Parse failed");
    let mut checker = TypeChecker::new();
    match checker.check_program(&program).unwrap_err() {
        TypeError::TypeMismatch { expected, actual } => {
            assert_eq!(expected, Type::Named("Int".to_string()));
            assert_eq!(actual, Type::Named("String".to_string()));
        }
        other => panic!("expected a type-mismatch error, got {:?}", other),
    }
}

#[test]
fn test_check_conflicting_variable_types() {
    let source = "rel p: Int × String\np(X, X) :- p(X, X).";
    let program = parse(source).expect("Parse failed");
    let mut checker = TypeChecker::new();
    match checker.check_program(&program).unwrap_err() {
        TypeError::ConflictingVariableTypes { variable, .. } => assert_eq!(variable, "X"),
        other => panic!("expected a conflicting-types error, got {:?}", other),
    }
}

#[test]
fn test_check_unify_type_mismatch() {
    let source = "rel p: Int\np(X) :- p(X), X = \"a\".";
    let program = parse(source).expect("Parse failed");
    let mut checker = TypeChecker::new();
    match checker.check_program(&program).unwrap_err() {
        TypeError::UnifyTypeMismatch { left, right } => {
            assert_eq!(left, Type::Named("Int".to_string()));
            assert_eq!(right, Type::Named("String".to_string()));
        }
        other => panic!("expected a unify-mismatch error, got {:?}", other),
    }
}

#[test]
fn test_check_unsafe_rule() {
    let source = "rel p: Int\nrel q: Int\np(X) :- q(2).";
    let program = parse(source).expect("Parse failed");
    let mut checker = TypeChecker::new();
    match checker.check_program(&program).unwrap_err() {
        TypeError::UnsafeRule { variable, relation } => {
            assert_eq!(variable, "X");
            assert_eq!(relation, "p");
        }
        other => panic!("expected an unsafe-rule error, got {:?}", other),
    }
}

#[test]
fn test_check_safe_rule_variable_in_head_and_body() {
    let source = "rel p: Int\nrel q: Int\np(X) :- q(X).";
    let program = parse(source).expect("Parse failed");
    let mut checker = TypeChecker::new();
    assert!(checker.check_program(&program).is_ok());
}

#[test]
fn test_check_empty_program() {
    let program = parse("").expect("Parse failed");
    let mut checker = TypeChecker::new();
    assert!(checker.check_program(&program).is_ok());
}

#[test]
fn test_check_sum_type_registers_variants() {
    let source = "type Level = Public | Internal | Confidential";
    let program = parse(source).expect("Parse failed");
    let mut checker = TypeChecker::new();
    assert!(checker.check_program(&program).is_ok());

    // each variant is its own zero-arity constructor of the sum type
    let mut env = TypeEnv::new();
    env.add_type(
        "Level".to_string(),
        TypeDefKind::Sum {
            variants: vec!["Public".to_string(), "Internal".to_string()],
        },
    )
    .unwrap();
    let (params, result) = env.get_constructor_info("Internal").unwrap();
    assert_eq!(params.len(), 0);
    assert_eq!(result, "Level");
}

#[test]
fn test_check_relation_arity_one_bare_type() {
    let source = "rel count: Int\ncount(3).";
    let program = parse(source).expect("Parse failed");
    let mut checker = TypeChecker::new();
    assert!(checker.check_program(&program).is_ok());
}

#[test]
fn test_get_relation_signature() {
    let mut env = TypeEnv::new();
    assert!(env.get_relation_signature("parent").is_none());
    env.add_relation(
        "parent".to_string(),
        Type::Product(vec![
            Type::Named("Person".to_string()),
            Type::Named("Person".to_string()),
        ]),
    )
    .unwrap();
    let sig = env.get_relation_signature("parent").unwrap();
    match sig {
        Type::Product(ts) => assert_eq!(ts.len(), 2),
        _ => panic!("expected a product signature"),
    }
}

#[test]
fn test_env_rejects_duplicates_directly() {
    let mut env = TypeEnv::new();
    env.add_relation("p".to_string(), Type::Named("Int".to_string()))
        .unwrap();
    match env
        .add_relation("p".to_string(), Type::Named("Int".to_string()))
        .unwrap_err()
    {
        TypeError::DuplicateRelation { name } => assert_eq!(name, "p"),
        other => panic!("expected a duplicate-relation error, got {:?}", other),
    }
    let mk = |c: &str| TypeDefKind::Product {
        constructor: c.to_string(),
        fields: vec![],
    };
    env.add_type("A".to_string(), mk("a")).unwrap();
    match env.add_type("A".to_string(), mk("b")).unwrap_err() {
        TypeError::DuplicateType { name } => assert_eq!(name, "A"),
        other => panic!("expected a duplicate-type error, got {:?}", other),
    }
    // a failed registration leaves the environment unchanged
    assert_eq!(env.types.len(), 1);
    assert_eq!(env.constructors.len(), 1);
}

#[test]
fn test_format_term_values() {
    let sp = Span { start: 0, end: 0 };
    assert_eq!(TypeChecker::format_term(&Term::Int(42, sp)), "42");
    assert_eq!(TypeChecker::format_term(&Term::Int(-7, sp)), "-7");
    assert_eq!(
        TypeChecker::format_term(&Term::Int(i64::MIN, sp)),
        "-9223372036854775808"
    );
    assert_eq!(
        TypeChecker::format_term(&Term::Var("X".to_string(), sp)),
        "X"
    );
    assert_eq!(
        TypeChecker::format_term(&Term::String("hi".to_string(), sp)),
        "\"hi\""
    );
    assert_eq!(
        TypeChecker::format_term(&Term::Construct {
            constructor: "nil".to_string(),
            args: vec![],
            span: sp,
        }),
        "nil"
    );
    assert_eq!(
        TypeChecker::format_term(&Term::Construct {
            constructor: "person".to_string(),
            args: vec![
                Term::String("Alice".to_string(), sp),
                Term::Int(45, sp),
            ],
            span: sp,
        }),
        "person(\"Alice\", 45)"
    );
    assert_eq!(
        TypeChecker::format_term(&Term::BinOp {
            op: BinOp::Add,
            left: Box::new(Term::Var("X".to_string(), sp)),
            right: Box::new(Term::Var("Y".to_string(), sp)),
            span: sp,
        }),
        "(X Add Y)"
    );
    let checker = TypeChecker::new();
    assert_eq!(checker.term_to_string(&Term::Int(3, sp)), "3");
}

#[test]
fn test_check_constructor_argument_type() {
    let source = r#"
        type Person = person(name: String, age: Int)
        rel p: Person
        p(person(45, "old")).
    "#;
    let program = parse(source).expect("Parse failed");
    let mut checker = TypeChecker::new();
    match checker.check_program(&program).unwrap_err() {
        TypeError::ConstructorArgumentMismatch {
            constructor,
            arg_index,
            expected,
            actual,
        } => {
            assert_eq!(constructor, "person");
            assert_eq!(arg_index, 1);
            assert_eq!(expected, Type::Named("String".to_string()));
            assert_eq!(actual, Type::Named("Int".to_string()));
        }
        other => panic!("expected a constructor-argument error, got {:?}", other),
    }
}

#[test]
fn test_check_operand_sides() {
    let left = parse("rel n: Int\nn(\"a\" + 1).").expect("Parse failed");
    let mut checker = TypeChecker::new();
    match checker.check_program(&left).unwrap_err() {
        TypeError::OperandTypeMismatch {
            op,
            side,
            expected,
            actual,
        } => {
            assert_eq!(op, BinOp::Add);
            assert_eq!(side, OperandSide::Left);
            assert_eq!(expected, Type::Named("Int".to_string()));
            assert_eq!(actual, Type::Named("String".to_string()));
        }
        other => panic!("expected an operand error, got {:?}", other),
    }
    let right = parse("rel n: Int\nn(1 * \"a\").").expect("Parse failed");
    let mut checker = TypeChecker::new();
    match checker.check_program(&right).unwrap_err() {
        TypeError::OperandTypeMismatch { op, side, .. } => {
            assert_eq!(op, BinOp::Mul);
            assert_eq!(side, OperandSide::Right);
        }
        other => panic!("expected an operand error, got {:?}", other),
    }
}
