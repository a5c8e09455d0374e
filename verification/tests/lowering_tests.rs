use qedc::ir::IrGoal;
use qedc::ir::IrProgram;
use qedc::ir::IrTerm;
use qedc::ir::IrValue;
use qedc::ir::TypeLayout;
use qedc::ir::lower_to_ir;
use qedc::parser::parse;

#[test]
fn test_ir_creation() {
    let ir = IrProgram {
        types: vec![],
        relations: vec![],
        queries: vec![],
    };
    assert_eq!(ir.types.len(), 0);
}

#[test]
fn test_lower_type_def() {
    let source = r#"
        type Person = person(name: String, age: Int)
    "#;
    let program = parse(source).expect("Parse failed");
    let ir = lower_to_ir(&program);

    assert_eq!(ir.types.len(), 1);
    assert_eq!(ir.types[0].name, "Person");
    match &ir.types[0].layout {
        TypeLayout::Struct { fields, .. } => {
            assert_eq!(fields.len(), 2);
        }
        _ => panic!("Expected struct layout"),
    }
}

#[test]
fn test_lower_fact() {
    let source = r#"
        type Person = person(name: String, age: Int)
        rel parent: Person × Person
        parent(person("Alice", 45), person("Bob", 20)).
    "#;
    let program = parse(source).expect("Parse failed");
    let ir = lower_to_ir(&program);

    assert_eq!(ir.relations.len(), 1);
    let parent_rel = &ir.relations[0];
    assert_eq!(parent_rel.name, "parent");
    assert_eq!(parent_rel.facts.len(), 1);
    assert_eq!(parent_rel.facts[0].args.len(), 2);
}

#[test]
fn test_lower_rule() {
    let source = r#"
        type Person = person(name: String, age: Int)
        rel parent: Person × Person
        rel ancestor: Person × Person
        ancestor(X, Y) :- parent(X, Y).
    "#;
    let program = parse(source).expect("Parse failed");
    let ir = lower_to_ir(&program);

    let ancestor_rel = ir.relations.iter().find(|r| r.name == "ancestor").unwrap();
    assert_eq!(ancestor_rel.rules.len(), 1);
    assert!(!ancestor_rel.rules[0].needs_tabling);
}

#[test]
fn test_lower_recursive_rule() {
    let source = r#"
        type Person = person(name: String, age: Int)
        rel parent: Person × Person
        rel ancestor: Person × Person
        ancestor(X, Z) :- parent(X, Y), ancestor(Y, Z).
    "#;
    let program = parse(source).expect("Parse failed");
    let ir = lower_to_ir(&program);

    let ancestor_rel = ir.relations.iter().find(|r| r.name == "ancestor").unwrap();
    assert_eq!(ancestor_rel.rules.len(), 1);
    assert!(ancestor_rel.rules[0].needs_tabling); // Recursive!
}

#[test]
fn test_lower_query() {
    let source = r#"
        type Person = person(name: String, age: Int)
        rel ancestor: Person × Person
        ?- ancestor(X, Y).
    "#;
    let program = parse(source).expect("Parse failed");
    let ir = lower_to_ir(&program);

    assert_eq!(ir.queries.len(), 1);
    assert_eq!(ir.queries[0].goals.len(), 1);
}

#[test]
fn test_lower_layout_sizes() {
    // String is a 16-byte fat pointer, Int an 8-byte word
    let source = "type Person = person(name: String, age: Int)";
    let program = parse(source).expect("Parse failed");
    let ir = lower_to_ir(&program);
    match &ir.types[0].layout {
        TypeLayout::Struct {
            size_bytes,
            align_bytes,
            ..
        } => {
            assert_eq!(*size_bytes, 24);
            assert_eq!(*align_bytes, 8);
        }
        _ => panic!("Expected struct layout"),
    }
}

#[test]
fn test_lower_sum_layout() {
    let source = "type Level = Public | Internal";
    let program = parse(source).expect("Parse failed");
    let ir = lower_to_ir(&program);
    match &ir.types[0].layout {
        TypeLayout::Enum {
            variants,
            tag_size,
            max_variant_size,
        } => {
            assert_eq!(variants, &vec!["Public".to_string(), "Internal".to_string()]);
            assert_eq!(*tag_size, 8);
            assert_eq!(*max_variant_size, 0);
        }
        _ => panic!("Expected enum layout"),
    }
}

#[test]
fn test_lower_empty_relation_still_emitted() {
    // one IrRelation per declared relation, even with no facts or rules
    let source = "rel lonely: Int\nrel parent: Int × Int\nparent(1, 2).";
    let program = parse(source).expect("Parse failed");
    let ir = lower_to_ir(&program);
    assert_eq!(ir.relations.len(), 2);
    assert_eq!(ir.relations[0].name, "lonely");
    assert_eq!(ir.relations[0].facts.len(), 0);
    assert_eq!(ir.relations[0].rules.len(), 0);
    assert_eq!(ir.relations[1].name, "parent");
    assert_eq!(ir.relations[1].facts.len(), 1);
}

#[test]
fn test_lower_shared_variable_gets_one_id() {
    // in p(X, X) :- q(X). every X is the same logical variable
    let source = "rel p: Int × Int\nrel q: Int\np(X, X) :- q(X).";
    let program = parse(source).expect("Parse failed");
    let ir = lower_to_ir(&program);
    let p_rel = ir.relations.iter().find(|r| r.name == "p").unwrap();
    let rule = &p_rel.rules[0];
    let head_ids: Vec<u64> = rule
        .head
        .args
        .iter()
        .map(|t| match t {
            IrTerm::Var(v) => v.0 as u64,
            _ => panic!("Expected variables in the head"),
        })
        .collect();
    assert_eq!(head_ids.len(), 2);
    assert_eq!(head_ids[0], head_ids[1]);
    match &rule.body[0] {
        IrGoal::Call { args, .. } => match &args[0] {
            IrTerm::Var(v) => assert_eq!(v.0 as u64, head_ids[0]),
            _ => panic!("Expected a variable argument"),
        },
        _ => panic!("Expected a call goal"),
    }
}

#[test]
fn test_lower_distinct_variables_get_distinct_ids() {
    let source = "rel p: Int × Int\nrel q: Int × Int\np(X, Y) :- q(X, Y).";
    let program = parse(source).expect("Parse failed");
    let ir = lower_to_ir(&program);
    let p_rel = ir.relations.iter().find(|r| r.name == "p").unwrap();
    let rule = &p_rel.rules[0];
    match (&rule.head.args[0], &rule.head.args[1]) {
        (IrTerm::Var(a), IrTerm::Var(b)) => assert_ne!(a.0, b.0),
        _ => panic!("Expected variables in the head"),
    }
}

#[test]
fn test_lower_ground_arithmetic_in_fact() {
    let source = "rel n: Int\nn(2 + 3 * 4).";
    let program = parse(source).expect("Parse failed");
    let ir = lower_to_ir(&program);
    match &ir.relations[0].facts[0].args[0] {
        IrValue::Int(v) => assert_eq!(*v, 14),
        other => panic!("Expected an integer value, got {:?}", other),
    }
}

#[test]
fn test_lower_variable_under_constructor_shares_id() {
    // the X inside the head pattern c(X) and the body's X are one
    // logical variable
    let source = "type C = c(v: Int)\nrel p: C\nrel q: Int\np(c(X)) :- q(X).";
    let program = parse(source).expect("Parse failed");
    let ir = lower_to_ir(&program);
    let p_rel = ir.relations.iter().find(|r| r.name == "p").unwrap();
    let rule = &p_rel.rules[0];
    let head_id = match &rule.head.args[0] {
        IrTerm::Construct { constructor, args } => {
            assert_eq!(constructor, "c");
            assert_eq!(args.len(), 1);
            match &args[0] {
                IrTerm::Var(v) => v.0,
                other => panic!("expected a variable under the constructor, got {:?}", other),
            }
        }
        other => panic!("expected a constructor pattern, got {:?}", other),
    };
    match &rule.body[0] {
        IrGoal::Call { args, .. } => match &args[0] {
            IrTerm::Var(v) => assert_eq!(v.0, head_id),
            other => panic!("expected a variable argument, got {:?}", other),
        },
        _ => panic!("expected a call goal"),
    }
}

#[test]
fn test_lower_ground_constructor_in_rule_is_structural() {
    // constructor applications in term positions lower structurally
    let source = "type C = c(v: Int)\nrel p: C\nrel q: C\np(X) :- q(X), X = c(3).";
    let program = parse(source).expect("Parse failed");
    let ir = lower_to_ir(&program);
    let p_rel = ir.relations.iter().find(|r| r.name == "p").unwrap();
    let rule = &p_rel.rules[0];
    match &rule.body[1] {
        IrGoal::Unify { right, .. } => match right {
            IrTerm::Construct { constructor, args } => {
                assert_eq!(constructor, "c");
                match &args[0] {
                    IrTerm::Value(IrValue::Int(n)) => assert_eq!(*n, 3),
                    other => panic!("expected a constant argument, got {:?}", other),
                }
            }
            other => panic!("expected a constructor term, got {:?}", other),
        },
        _ => panic!("expected a unification goal"),
    }
}
