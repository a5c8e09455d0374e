use qedc::compile_to_ir;
use qedc::CompileError;
use qedc::ir::IrValue;
use qedc::parser::parse;
use qedc::types::TypeChecker;
use qedc::types::TypeError;

#[test]
fn scenario_fact_checks_and_lowers() {
    let source = r#"
        type Person = person(name: String, age: Int)
        rel parent: Person × Person
        parent(person("Alice", 45), person("Bob", 20)).
    "#;
    let ir = compile_to_ir(source).expect("compilation failed");
    assert_eq!(ir.relations.len(), 1);
    let parent = &ir.relations[0];
    assert_eq!(parent.name, "parent");
    assert_eq!(parent.facts.len(), 1);
    let fact = &parent.facts[0];
    assert_eq!(fact.args.len(), 2);
    for arg in &fact.args {
        match arg {
            IrValue::Struct { ty_name, fields } => {
                assert_eq!(ty_name, "person");
                assert_eq!(fields.len(), 2);
            }
            other => panic!("expected a struct value, got {:?}", other),
        }
    }
    match &fact.args[0] {
        IrValue::Struct { fields, .. } => {
            assert_eq!(fields[0], IrValue::String("Alice".to_string()));
            assert_eq!(fields[1], IrValue::Int(45));
        }
        _ => unreachable!(),
    }
}

#[test]
fn scenario_plain_rule_needs_no_tabling() {
    let source = r#"
        type Person = person(name: String, age: Int)
        rel parent: Person × Person
        rel ancestor: Person × Person
        ancestor(X, Y) :- parent(X, Y).
    "#;
    let ir = compile_to_ir(source).expect("compilation failed");
    let ancestor = ir.relations.iter().find(|r| r.name == "ancestor").unwrap();
    assert_eq!(ancestor.rules.len(), 1);
    assert!(!ancestor.rules[0].needs_tabling);
}

#[test]
fn scenario_self_recursive_rule_needs_tabling() {
    let source = r#"
        type Person = person(name: String, age: Int)
        rel parent: Person × Person
        rel ancestor: Person × Person
        ancestor(X, Z) :- parent(X, Y), ancestor(Y, Z).
    "#;
    let ir = compile_to_ir(source).expect("compilation failed");
    let ancestor = ir.relations.iter().find(|r| r.name == "ancestor").unwrap();
    assert_eq!(ancestor.rules.len(), 1);
    assert!(ancestor.rules[0].needs_tabling);
}

#[test]
fn scenario_wrong_arity_names_relation_and_counts() {
    let source = r#"
        type Person = person(name: String, age: Int)
        rel parent: Person × Person
        parent(person("Alice", 45)).
    "#;
    let program = parse(source).expect("Parse failed");
    let mut checker = TypeChecker::new();
    match checker.check_program(&program).unwrap_err() {
        TypeError::ArityMismatch {
            relation,
            expected,
            actual,
        } => {
            assert_eq!(relation, "parent");
            assert_eq!(expected, 2);
            assert_eq!(actual, 1);
        }
        other => panic!("expected an arity mismatch, got {:?}", other),
    }
}

#[test]
fn scenario_compile_reports_parse_errors() {
    match compile_to_ir("type = ") {
        Err(CompileError::Parse(_)) => {}
        other => panic!("expected a parse error, got {:?}", other),
    }
}

#[test]
fn scenario_compile_reports_check_errors() {
    match compile_to_ir("p(1).") {
        Err(CompileError::Check(TypeError::UnknownRelation { name })) => {
            assert_eq!(name, "p");
        }
        other => panic!("expected a checker error, got {:?}", other),
    }
}

#[test]
fn scenario_whole_pipeline_with_queries() {
    let source = r#"
        type Person = person(name: String, age: Int)
        rel parent: Person × Person
        rel ancestor: Person × Person
        parent(person("Alice", 45), person("Bob", 20)).
        parent(person("Bob", 20), person("Carol", 2)).
        ancestor(X, Y) :- parent(X, Y).
        ancestor(X, Z) :- parent(X, Y), ancestor(Y, Z).
        ?- ancestor(X, person("Carol", 2)).
    "#;
    let ir = compile_to_ir(source).expect("compilation failed");
    assert_eq!(ir.types.len(), 1);
    assert_eq!(ir.relations.len(), 2);
    assert_eq!(ir.queries.len(), 1);
    let parent = ir.relations.iter().find(|r| r.name == "parent").unwrap();
    assert_eq!(parent.facts.len(), 2);
    let ancestor = ir.relations.iter().find(|r| r.name == "ancestor").unwrap();
    assert_eq!(ancestor.rules.len(), 2);
    assert!(!ancestor.rules[0].needs_tabling);
    assert!(ancestor.rules[1].needs_tabling);
}
