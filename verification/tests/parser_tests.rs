use qedc::ast::BinOp;
use qedc::ast::Term;
use qedc::ast::Type;
use qedc::ast::TypeDefKind;
use qedc::lexer::tokenize;
use qedc::parser::atom_parser;
use qedc::parser::fact_parser;
use qedc::parser::parse;
use qedc::parser::query_parser;
use qedc::parser::relation_decl_parser;
use qedc::parser::rule_parser;
use qedc::parser::term_parser;
use qedc::parser::type_def_parser;
use qedc::parser::type_parser;

#[test]
fn test_parse_type_named() {
    let tokens = tokenize("Person");
    let result = type_parser(&tokens);
    assert!(result.is_ok());
    assert_eq!(result.unwrap(), Type::Named("Person".to_string()));
}

#[test]
fn test_parse_type_product() {
    let tokens = tokenize("Person × Int");
    let result = type_parser(&tokens);
    assert!(result.is_ok());
    match result.unwrap() {
        Type::Product(types) => {
            assert_eq!(types.len(), 2);
            assert_eq!(types[0], Type::Named("Person".to_string()));
            assert_eq!(types[1], Type::Named("Int".to_string()));
        }
        _ => panic!("Expected product type"),
    }
}

#[test]
fn test_parse_term_var() {
    let tokens = tokenize("X");
    let result = term_parser(&tokens);
    assert!(result.is_ok());
    match result.unwrap() {
        Term::Var(name, _) => assert_eq!(name, "X"),
        _ => panic!("Expected variable"),
    }
}

#[test]
fn test_parse_term_int() {
    let tokens = tokenize("42");
    let result = term_parser(&tokens);
    assert!(result.is_ok());
    match result.unwrap() {
        Term::Int(n, _) => assert_eq!(n, 42),
        _ => panic!("Expected integer"),
    }
}

#[test]
fn test_parse_term_constructor() {
    let tokens = tokenize(r#"person("Alice", 45)"#);
    let result = term_parser(&tokens);
    assert!(result.is_ok());
    match result.unwrap() {
        Term::Construct {
            constructor, args, ..
        } => {
            assert_eq!(constructor, "person");
            assert_eq!(args.len(), 2);
        }
        _ => panic!("Expected constructor"),
    }
}

#[test]
fn test_parse_term_binop() {
    let tokens = tokenize("X + Y");
    let result = term_parser(&tokens);
    assert!(result.is_ok());
    match result.unwrap() {
        Term::BinOp { op, .. } => assert_eq!(op, BinOp::Add),
        _ => panic!("Expected binary operation"),
    }
}

#[test]
fn test_parse_atom() {
    let tokens = tokenize("parent(X, Y)");
    let result = atom_parser(&tokens);
    assert!(result.is_ok());
    let atom = result.unwrap();
    assert_eq!(atom.relation, "parent");
    assert_eq!(atom.args.len(), 2);
}

#[test]
fn grammar_test_parse_type_def() {
    let tokens = tokenize("type Person = person(name: String, age: Int)");
    let result = type_def_parser(&tokens);
    assert!(result.is_ok());
    let typedef = result.unwrap();
    assert_eq!(typedef.name, "Person");
    match typedef.def {
        TypeDefKind::Product {
            constructor,
            fields,
        } => {
            assert_eq!(constructor, "person");
            assert_eq!(fields.len(), 2);
        }
        _ => panic!("Expected product type"),
    }
}

#[test]
fn test_parse_relation_decl() {
    let tokens = tokenize("rel parent: Person × Person");
    let result = relation_decl_parser(&tokens);
    assert!(result.is_ok());
    let decl = result.unwrap();
    assert_eq!(decl.name, "parent");
}

#[test]
fn grammar_test_parse_fact() {
    let tokens = tokenize(r#"parent(person("Alice", 45), person("Bob", 20))."#);
    let result = fact_parser(&tokens);
    assert!(result.is_ok());
    let fact = result.unwrap();
    assert_eq!(fact.relation, "parent");
    assert_eq!(fact.args.len(), 2);
}

#[test]
fn grammar_test_parse_rule() {
    let tokens = tokenize("ancestor(X, Y) :- parent(X, Y).");
    let result = rule_parser(&tokens);
    assert!(result.is_ok());
    let rule = result.unwrap();
    assert_eq!(rule.head.relation, "ancestor");
    assert_eq!(rule.body.len(), 1);
}

#[test]
fn test_parse_query() {
    let tokens = tokenize("?- ancestor(X, Y).");
    let result = query_parser(&tokens);
    assert!(result.is_ok());
    let query = result.unwrap();
    assert_eq!(query.goals.len(), 1);
}

#[test]
fn test_parse_empty() {
    let result = parse("");
    assert!(result.is_ok());
}

#[test]
fn mod_test_parse_type_def() {
    let source = "type Person = person(name: String, age: Int)";
    let result = parse(source);
    assert!(result.is_ok());
}

#[test]
fn test_parse_relation() {
    let source = "rel parent: Person × Person";
    let result = parse(source);
    assert!(result.is_ok());
}

#[test]
fn mod_test_parse_fact() {
    let source = r#"parent(person("Alice", 45), person("Bob", 20))."#;
    let result = parse(source);
    assert!(result.is_ok());
}

#[test]
fn mod_test_parse_rule() {
    let source = "ancestor(X, Y) :- parent(X, Y).";
    let result = parse(source);
    assert!(result.is_ok());
}

#[test]
fn test_parse_list_and_option_types() {
    let tokens = tokenize("List<Int>");
    assert_eq!(
        type_parser(&tokens).unwrap(),
        Type::List(Box::new(Type::Named("Int".to_string())))
    );
    let tokens = tokenize("Option<String>");
    assert_eq!(
        type_parser(&tokens).unwrap(),
        Type::Option(Box::new(Type::Named("String".to_string())))
    );
}

#[test]
fn test_parse_precedence() {
    // X + Y * Z parses as X + (Y * Z)
    let tokens = tokenize("X + Y * Z");
    match term_parser(&tokens).unwrap() {
        Term::BinOp { op, right, .. } => {
            assert_eq!(op, BinOp::Add);
            match *right {
                Term::BinOp { op, .. } => assert_eq!(op, BinOp::Mul),
                _ => panic!("Expected multiplication on the right"),
            }
        }
        _ => panic!("Expected binary operation"),
    }
}

#[test]
fn test_parse_sum_type_def() {
    let tokens = tokenize("type Level = Public | Internal | Confidential");
    let typedef = type_def_parser(&tokens).unwrap();
    assert_eq!(typedef.name, "Level");
    match typedef.def {
        TypeDefKind::Sum { variants } => {
            assert_eq!(variants, vec!["Public", "Internal", "Confidential"]);
        }
        _ => panic!("Expected sum type"),
    }
}

#[test]
fn test_parse_bare_identifier_is_not_a_goal() {
    let source = "ancestor(X, Y) :- parent.";
    assert!(parse(source).is_err());
}
