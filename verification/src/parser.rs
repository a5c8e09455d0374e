//! Recursive-descent parser from tokens to the AST.
//!
//! Each parsing function consumes a prefix of the token list and
//! reports how far it came; the public entry points accept exactly
//! the inputs that the grammar derives and demand that the whole
//! token list is consumed.  Parsing always terminates and never
//! fails outside its `Result`.
use vstd::prelude::*;

use crate::ast::Atom;
use crate::ast::BinOp;
use crate::ast::CompareOp;
use crate::ast::Fact;
use crate::ast::Field;
use crate::ast::Goal;
use crate::ast::Item;
use crate::ast::Program;
use crate::ast::Query;
use crate::ast::RelationDecl;
use crate::ast::Rule;
use crate::ast::Span;
use crate::ast::Term;
use crate::ast::Type;
use crate::ast::TypeDef;
use crate::ast::TypeDefKind;
use crate::lexer::Token;
use crate::lexer::tokenize;
use crate::text::str_eq;

verus! {

/// A parse failure, with the token position it was noticed at.
#[derive(Debug, Clone, Copy, PartialEq, Eq, Structural)]
pub struct ParseError {
    pub pos: usize,
}

/// Parse a type expression: named types, `List<T>`, `Option<T>`, and
/// `×`-products of those.
#[verifier::loop_isolation(false)]
fn parse_type(tokens: &Vec<Token>, pos: usize) -> (r: (Result<Type, ParseError>, usize))
    requires
        pos <= tokens@.len(),
    ensures
        pos <= r.1 <= tokens@.len(),
        r.0 is Ok ==> r.1 > pos,
    decreases tokens@.len() - pos, 2int,
{
    let (first, mut p) = parse_base_type(tokens, pos);
    let mut first_ty = match first {
        Err(e) => {
            return (Err(e), p);
        },
        Ok(t) => t,
    };
    let mut items: Vec<Type> = Vec::new();
    items.push(first_ty);
    while p < tokens.len() && matches!(tokens[p], Token::Times)
        invariant
            pos < p <= tokens@.len(),
            items@.len() >= 1,
        decreases tokens@.len() - p,
    {
        let (next, p2) = parse_base_type(tokens, p + 1);
        match next {
            Err(e) => {
                return (Err(e), pos);
            },
            Ok(t) => {
                items.push(t);
                p = p2;
            },
        }
    }
    if items.len() == 1 {
        let single = match items.pop() {
            Some(t) => t,
            None => {
                return (Err(ParseError { pos }), pos);
            },
        };
        (Ok(single), p)
    } else {
        (Ok(Type::Product(items)), p)
    }
}

/// Parse a base type: `List<T>`, `Option<T>`, or a named type.
#[verifier::loop_isolation(false)]
fn parse_base_type(tokens: &Vec<Token>, pos: usize) -> (r: (Result<Type, ParseError>, usize))
    requires
        pos <= tokens@.len(),
    ensures
        pos <= r.1 <= tokens@.len(),
        r.0 is Ok ==> r.1 > pos,
    decreases tokens@.len() - pos, 1int,
{
    if pos >= tokens.len() {
        return (Err(ParseError { pos }), pos);
    }
    match &tokens[pos] {
        Token::UpperId(name) => {
            let generic = pos + 1 < tokens.len() && matches!(tokens[pos + 1], Token::Lt);
            if generic && str_eq(name.as_str(), "List") {
                let (inner, p) = parse_type(tokens, pos + 2);
                match inner {
                    Err(e) => (Err(e), pos),
                    Ok(t) => {
                        if p < tokens.len() && matches!(tokens[p], Token::Gt) {
                            (Ok(Type::List(Box::new(t))), p + 1)
                        } else {
                            (Err(ParseError { pos: p }), pos)
                        }
                    },
                }
            } else if generic && str_eq(name.as_str(), "Option") {
                let (inner, p) = parse_type(tokens, pos + 2);
                match inner {
                    Err(e) => (Err(e), pos),
                    Ok(t) => {
                        if p < tokens.len() && matches!(tokens[p], Token::Gt) {
                            (Ok(Type::Option(Box::new(t))), p + 1)
                        } else {
                            (Err(ParseError { pos: p }), pos)
                        }
                    },
                }
            } else {
                (Ok(Type::Named(name.clone())), pos + 1)
            }
        },
        _ => (Err(ParseError { pos }), pos),
    }
}

/// Parse a comma-separated argument list up to the closing `)`,
/// starting just after the opening `(`.
#[verifier::loop_isolation(false)]
fn parse_term_list(tokens: &Vec<Token>, pos: usize) -> (r: (Result<Vec<Term>, ParseError>, usize))
    requires
        pos <= tokens@.len(),
    ensures
        pos <= r.1 <= tokens@.len(),
        r.0 is Ok ==> r.1 > pos,
    decreases tokens@.len() - pos, 6int,
{
    let mut args: Vec<Term> = Vec::new();
    if pos < tokens.len() && matches!(tokens[pos], Token::RParen) {
        return (Ok(args), pos + 1);
    }
    let mut p = pos;
    loop
        invariant
            pos <= p <= tokens@.len(),
        decreases tokens@.len() - p,
    {
        let (t, p2) = parse_term(tokens, p);
        match t {
            Err(e) => {
                return (Err(e), pos);
            },
            Ok(term) => {
                args.push(term);
                if p2 < tokens.len() && matches!(tokens[p2], Token::Comma) {
                    p = p2 + 1;
                } else if p2 < tokens.len() && matches!(tokens[p2], Token::RParen) {
                    return (Ok(args), p2 + 1);
                } else {
                    return (Err(ParseError { pos: p2 }), pos);
                }
            },
        }
    }
}

/// Parse a term: additive operators over multiplicative ones over
/// atoms.
fn parse_term(tokens: &Vec<Token>, pos: usize) -> (r: (Result<Term, ParseError>, usize))
    requires
        pos <= tokens@.len(),
    ensures
        pos <= r.1 <= tokens@.len(),
        r.0 is Ok ==> r.1 > pos,
    decreases tokens@.len() - pos, 5int,
{
    parse_additive(tokens, pos)
}

#[verifier::loop_isolation(false)]
fn parse_additive(tokens: &Vec<Token>, pos: usize) -> (r: (Result<Term, ParseError>, usize))
    requires
        pos <= tokens@.len(),
    ensures
        pos <= r.1 <= tokens@.len(),
        r.0 is Ok ==> r.1 > pos,
    decreases tokens@.len() - pos, 4int,
{
    let (first, mut p) = parse_multiplicative(tokens, pos);
    let mut left = match first {
        Err(e) => {
            return (Err(e), p);
        },
        Ok(t) => t,
    };
    while p < tokens.len() && (matches!(tokens[p], Token::Plus) || matches!(
        tokens[p],
        Token::Minus,
    ))
        invariant
            pos < p <= tokens@.len(),
        decreases tokens@.len() - p,
    {
        let op = if matches!(tokens[p], Token::Plus) {
            BinOp::Add
        } else {
            BinOp::Sub
        };
        let (next, p2) = parse_multiplicative(tokens, p + 1);
        match next {
            Err(e) => {
                return (Err(e), pos);
            },
            Ok(right) => {
                let start = left.span().start;
                let end = right.span().end;
                left = Term::BinOp {
                    op,
                    left: Box::new(left),
                    right: Box::new(right),
                    span: Span { start, end },
                };
                p = p2;
            },
        }
    }
    (Ok(left), p)
}

#[verifier::loop_isolation(false)]
fn parse_multiplicative(tokens: &Vec<Token>, pos: usize) -> (r: (Result<Term, ParseError>, usize))
    requires
        pos <= tokens@.len(),
    ensures
        pos <= r.1 <= tokens@.len(),
        r.0 is Ok ==> r.1 > pos,
    decreases tokens@.len() - pos, 3int,
{
    let (first, mut p) = parse_atom_term(tokens, pos);
    let mut left = match first {
        Err(e) => {
            return (Err(e), p);
        },
        Ok(t) => t,
    };
    while p < tokens.len() && (matches!(tokens[p], Token::Star) || matches!(tokens[p], Token::Slash)
        || matches!(tokens[p], Token::Percent))
        invariant
            pos < p <= tokens@.len(),
        decreases tokens@.len() - p,
    {
        let op = if matches!(tokens[p], Token::Star) {
            BinOp::Mul
        } else if matches!(tokens[p], Token::Slash) {
            BinOp::Div
        } else {
            BinOp::Mod
        };
        let (next, p2) = parse_atom_term(tokens, p + 1);
        match next {
            Err(e) => {
                return (Err(e), pos);
            },
            Ok(right) => {
                let start = left.span().start;
                let end = right.span().end;
                left = Term::BinOp {
                    op,
                    left: Box::new(left),
                    right: Box::new(right),
                    span: Span { start, end },
                };
                p = p2;
            },
        }
    }
    (Ok(left), p)
}

/// Parse a term atom: a parenthesized term, a constructor application
/// (or a bare zero-arity constructor), a variable, or a literal.
fn parse_atom_term(tokens: &Vec<Token>, pos: usize) -> (r: (Result<Term, ParseError>, usize))
    requires
        pos <= tokens@.len(),
    ensures
        pos <= r.1 <= tokens@.len(),
        r.0 is Ok ==> r.1 > pos,
    decreases tokens@.len() - pos, 2int,
{
    if pos >= tokens.len() {
        return (Err(ParseError { pos }), pos);
    }
    match &tokens[pos] {
        Token::LParen => {
            let (inner, p) = parse_term(tokens, pos + 1);
            match inner {
                Err(e) => (Err(e), pos),
                Ok(t) => {
                    if p < tokens.len() && matches!(tokens[p], Token::RParen) {
                        (Ok(t), p + 1)
                    } else {
                        (Err(ParseError { pos: p }), pos)
                    }
                },
            }
        },
        Token::LowerId(name) => {
            if pos + 1 < tokens.len() && matches!(tokens[pos + 1], Token::LParen) {
                let (args, p) = parse_term_list(tokens, pos + 2);
                match args {
                    Err(e) => (Err(e), pos),
                    Ok(arg_terms) => (
                        Ok(
                            Term::Construct {
                                constructor: name.clone(),
                                args: arg_terms,
                                span: Span { start: pos, end: p },
                            },
                        ),
                        p,
                    ),
                }
            } else {
                (
                    Ok(
                        Term::Construct {
                            constructor: name.clone(),
                            args: Vec::new(),
                            span: Span { start: pos, end: pos + 1 },
                        },
                    ),
                    pos + 1,
                )
            }
        },
        Token::UpperId(name) => (
            Ok(Term::Var(name.clone(), Span { start: pos, end: pos + 1 })),
            pos + 1,
        ),
        Token::Int(n) => (Ok(Term::Int(*n, Span { start: pos, end: pos + 1 })), pos + 1),
        Token::String(s) => (
            Ok(Term::String(s.clone(), Span { start: pos, end: pos + 1 })),
            pos + 1,
        ),
        _ => (Err(ParseError { pos }), pos),
    }
}

/// Parse an atom: `relation(arg, ...)`, parentheses required.
fn parse_atom(tokens: &Vec<Token>, pos: usize) -> (r: (Result<Atom, ParseError>, usize))
    requires
        pos <= tokens@.len(),
    ensures
        pos <= r.1 <= tokens@.len(),
        r.0 is Ok ==> r.1 > pos,
    decreases tokens@.len() - pos, 7int,
{
    if pos >= tokens.len() {
        return (Err(ParseError { pos }), pos);
    }
    match &tokens[pos] {
        Token::LowerId(name) => {
            if pos + 1 < tokens.len() && matches!(tokens[pos + 1], Token::LParen) {
                let (args, p) = parse_term_list(tokens, pos + 2);
                match args {
                    Err(e) => (Err(e), pos),
                    Ok(arg_terms) => (
                        Ok(
                            Atom {
                                relation: name.clone(),
                                args: arg_terms,
                                span: Span { start: pos, end: p },
                            },
                        ),
                        p,
                    ),
                }
            } else {
                (Err(ParseError { pos: pos + 1 }), pos)
            }
        },
        _ => (Err(ParseError { pos }), pos),
    }
}

/// Parse a goal: a comparison, a unification, or a relation call, in
/// that order of preference.
fn parse_goal(tokens: &Vec<Token>, pos: usize) -> (r: (Result<Goal, ParseError>, usize))
    requires
        pos <= tokens@.len(),
    ensures
        pos <= r.1 <= tokens@.len(),
        r.0 is Ok ==> r.1 > pos,
    decreases tokens@.len() - pos, 8int,
{
    let (first, p1) = parse_term(tokens, pos);
    match first {
        Ok(left) => {
            if p1 < tokens.len() {
                let cmp: Option<CompareOp> = match &tokens[p1] {
                    Token::EqEq => Some(CompareOp::Eq),
                    Token::Ne => Some(CompareOp::Ne),
                    Token::Le => Some(CompareOp::Le),
                    Token::Ge => Some(CompareOp::Ge),
                    Token::Lt => Some(CompareOp::Lt),
                    Token::Gt => Some(CompareOp::Gt),
                    _ => None,
                };
                match cmp {
                    Some(op) => {
                        let (second, p2) = parse_term(tokens, p1 + 1);
                        return match second {
                            Err(e) => (Err(e), pos),
                            Ok(right) => (
                                Ok(Goal::Compare(op, left, right, Span { start: pos, end: p2 })),
                                p2,
                            ),
                        };
                    },
                    None => {
                        if matches!(tokens[p1], Token::Eq) {
                            let (second, p2) = parse_term(tokens, p1 + 1);
                            return match second {
                                Err(e) => (Err(e), pos),
                                Ok(right) => (
                                    Ok(Goal::Unify(left, right, Span { start: pos, end: p2 })),
                                    p2,
                                ),
                            };
                        }
                    },
                }
            }
        },
        Err(e) => {},
    }
    // neither a comparison nor a unification: a relation call
    let (atom, p) = parse_atom(tokens, pos);
    match atom {
        Err(e) => (Err(e), pos),
        Ok(a) => (Ok(Goal::Atom(a)), p),
    }
}

/// Parse a comma-separated goal list ending at `.`; the dot is
/// consumed.
#[verifier::loop_isolation(false)]
fn parse_goal_list(tokens: &Vec<Token>, pos: usize) -> (r: (Result<Vec<Goal>, ParseError>, usize))
    requires
        pos <= tokens@.len(),
    ensures
        pos <= r.1 <= tokens@.len(),
        r.0 is Ok ==> r.1 > pos,
    decreases tokens@.len() - pos, 9int,
{
    let mut goals: Vec<Goal> = Vec::new();
    if pos < tokens.len() && matches!(tokens[pos], Token::Dot) {
        return (Ok(goals), pos + 1);
    }
    let mut p = pos;
    loop
        invariant
            pos <= p <= tokens@.len(),
        decreases tokens@.len() - p,
    {
        let (g, p2) = parse_goal(tokens, p);
        match g {
            Err(e) => {
                return (Err(e), pos);
            },
            Ok(goal) => {
                goals.push(goal);
                if p2 < tokens.len() && matches!(tokens[p2], Token::Comma) {
                    p = p2 + 1;
                } else if p2 < tokens.len() && matches!(tokens[p2], Token::Dot) {
                    return (Ok(goals), p2 + 1);
                } else {
                    return (Err(ParseError { pos: p2 }), pos);
                }
            },
        }
    }
}

/// Parse a type definition:
/// `type Person = person(name: String, age: Int)` or
/// `type Level = Public | Internal`.
#[verifier::loop_isolation(false)]
fn parse_type_def(tokens: &Vec<Token>, pos: usize) -> (r: (Result<TypeDef, ParseError>, usize))
    requires
        pos <= tokens@.len(),
    ensures
        pos <= r.1 <= tokens@.len(),
        r.0 is Ok ==> r.1 > pos,
    decreases tokens@.len() - pos, 10int,
{
    if !(pos < tokens.len() && matches!(tokens[pos], Token::Type)) {
        return (Err(ParseError { pos }), pos);
    }
    if pos + 1 >= tokens.len() {
        return (Err(ParseError { pos: pos + 1 }), pos);
    }
    let name = match &tokens[pos + 1] {
        Token::UpperId(n) => n.clone(),
        _ => {
            return (Err(ParseError { pos: pos + 1 }), pos);
        },
    };
    if !(pos + 2 < tokens.len() && matches!(tokens[pos + 2], Token::Eq)) {
        return (Err(ParseError { pos: pos + 2 }), pos);
    }
    let body = pos + 3;
    if body >= tokens.len() {
        return (Err(ParseError { pos: body }), pos);
    }
    match &tokens[body] {
        Token::LowerId(constructor) => {
            // product layout: constructor with named, typed fields
            if !(body + 1 < tokens.len() && matches!(tokens[body + 1], Token::LParen)) {
                return (Err(ParseError { pos: body + 1 }), pos);
            }
            let mut fields: Vec<Field> = Vec::new();
            let mut p = body + 2;
            if p < tokens.len() && matches!(tokens[p], Token::RParen) {
                let def = TypeDefKind::Product { constructor: constructor.clone(), fields };
                return (Ok(TypeDef { name, def, span: Span { start: pos, end: p + 1 } }), p + 1);
            }
            loop
                invariant
                    pos <= p <= tokens@.len(),
                decreases tokens@.len() - p,
            {
                if p >= tokens.len() {
                    return (Err(ParseError { pos: p }), pos);
                }
                let field_name = match &tokens[p] {
                    Token::LowerId(n) => n.clone(),
                    _ => {
                        return (Err(ParseError { pos: p }), pos);
                    },
                };
                if !(p + 1 < tokens.len() && matches!(tokens[p + 1], Token::Colon)) {
                    return (Err(ParseError { pos: p + 1 }), pos);
                }
                let (ty, p2) = parse_type(tokens, p + 2);
                match ty {
                    Err(e) => {
                        return (Err(e), pos);
                    },
                    Ok(field_ty) => {
                        fields.push(Field { name: field_name, ty: field_ty });
                        if p2 < tokens.len() && matches!(tokens[p2], Token::Comma) {
                            p = p2 + 1;
                        } else if p2 < tokens.len() && matches!(tokens[p2], Token::RParen) {
                            let def = TypeDefKind::Product {
                                constructor: constructor.clone(),
                                fields,
                            };
                            return (
                                Ok(
                                    TypeDef {
                                        name,
                                        def,
                                        span: Span { start: pos, end: p2 + 1 },
                                    },
                                ),
                                p2 + 1,
                            );
                        } else {
                            return (Err(ParseError { pos: p2 }), pos);
                        }
                    },
                }
            }
        },
        Token::UpperId(first_variant) => {
            // sum layout: variants separated by `|`
            let mut variants: Vec<String> = Vec::new();
            variants.push(first_variant.clone());
            let mut p = body + 1;
            while p < tokens.len() && matches!(tokens[p], Token::Pipe)
                invariant
                    pos < p <= tokens@.len(),
                decreases tokens@.len() - p,
            {
                if p + 1 >= tokens.len() {
                    return (Err(ParseError { pos: p + 1 }), pos);
                }
                match &tokens[p + 1] {
                    Token::UpperId(v) => {
                        variants.push(v.clone());
                        p = p + 2;
                    },
                    _ => {
                        return (Err(ParseError { pos: p + 1 }), pos);
                    },
                }
            }
            let def = TypeDefKind::Sum { variants };
            (Ok(TypeDef { name, def, span: Span { start: pos, end: p } }), p)
        },
        _ => (Err(ParseError { pos: body }), pos),
    }
}

/// Parse a relation declaration: `rel parent: Person × Person`.
fn parse_relation_decl(tokens: &Vec<Token>, pos: usize) -> (r: (
    Result<RelationDecl, ParseError>,
    usize,
))
    requires
        pos <= tokens@.len(),
    ensures
        pos <= r.1 <= tokens@.len(),
        r.0 is Ok ==> r.1 > pos,
    decreases tokens@.len() - pos, 10int,
{
    if !(pos < tokens.len() && matches!(tokens[pos], Token::Rel)) {
        return (Err(ParseError { pos }), pos);
    }
    if pos + 1 >= tokens.len() {
        return (Err(ParseError { pos: pos + 1 }), pos);
    }
    let name = match &tokens[pos + 1] {
        Token::LowerId(n) => n.clone(),
        _ => {
            return (Err(ParseError { pos: pos + 1 }), pos);
        },
    };
    if !(pos + 2 < tokens.len() && matches!(tokens[pos + 2], Token::Colon)) {
        return (Err(ParseError { pos: pos + 2 }), pos);
    }
    let (sig, p) = parse_type(tokens, pos + 3);
    match sig {
        Err(e) => (Err(e), pos),
        Ok(signature) => (
            Ok(RelationDecl { name, signature, span: Span { start: pos, end: p } }),
            p,
        ),
    }
}

/// Parse a query: `?- goal, ... .`
fn parse_query(tokens: &Vec<Token>, pos: usize) -> (r: (Result<Query, ParseError>, usize))
    requires
        pos <= tokens@.len(),
    ensures
        pos <= r.1 <= tokens@.len(),
        r.0 is Ok ==> r.1 > pos,
    decreases tokens@.len() - pos, 10int,
{
    if !(pos < tokens.len() && matches!(tokens[pos], Token::QuestionDash)) {
        return (Err(ParseError { pos }), pos);
    }
    let (goals, p) = parse_goal_list(tokens, pos + 1);
    match goals {
        Err(e) => (Err(e), pos),
        Ok(gs) => (Ok(Query { goals: gs, span: Span { start: pos, end: p } }), p),
    }
}

/// Parse one top-level item.
fn parse_item(tokens: &Vec<Token>, pos: usize) -> (r: (Result<Item, ParseError>, usize))
    requires
        pos <= tokens@.len(),
    ensures
        pos <= r.1 <= tokens@.len(),
        r.0 is Ok ==> r.1 > pos,
    decreases tokens@.len() - pos, 11int,
{
    if pos >= tokens.len() {
        return (Err(ParseError { pos }), pos);
    }
    match &tokens[pos] {
        Token::Type => {
            let (d, p) = parse_type_def(tokens, pos);
            match d {
                Err(e) => (Err(e), pos),
                Ok(td) => (Ok(Item::TypeDef(td)), p),
            }
        },
        Token::Rel => {
            let (d, p) = parse_relation_decl(tokens, pos);
            match d {
                Err(e) => (Err(e), pos),
                Ok(rd) => (Ok(Item::RelationDecl(rd)), p),
            }
        },
        Token::QuestionDash => {
            let (q, p) = parse_query(tokens, pos);
            match q {
                Err(e) => (Err(e), pos),
                Ok(query) => (Ok(Item::Query(query)), p),
            }
        },
        Token::LowerId(_) => {
            let (a, p) = parse_atom(tokens, pos);
            match a {
                Err(e) => (Err(e), pos),
                Ok(atom) => {
                    if p < tokens.len() && matches!(tokens[p], Token::ColonDash) {
                        let (goals, p2) = parse_goal_list(tokens, p + 1);
                        match goals {
                            Err(e) => (Err(e), pos),
                            Ok(gs) => (
                                Ok(
                                    Item::Rule(
                                        Rule {
                                            head: atom,
                                            body: gs,
                                            span: Span { start: pos, end: p2 },
                                        },
                                    ),
                                ),
                                p2,
                            ),
                        }
                    } else if p < tokens.len() && matches!(tokens[p], Token::Dot) {
                        let Atom { relation, args, .. } = atom;
                        (
                            Ok(
                                Item::Fact(
                                    Fact {
                                        relation,
                                        args,
                                        span: Span { start: pos, end: p + 1 },
                                    },
                                ),
                            ),
                            p + 1,
                        )
                    } else {
                        (Err(ParseError { pos: p }), pos)
                    }
                },
            }
        },
        _ => (Err(ParseError { pos }), pos),
    }
}

/// Parse a complete program: items until the end of the tokens.  The
/// empty token list is the empty program.
#[verifier::loop_isolation(false)]
pub fn program_parser(tokens: &Vec<Token>) -> (r: Result<Program, ParseError>)
    ensures
        tokens@.len() == 0 ==> r is Ok && r->Ok_0.items@.len() == 0,
{
    let mut items: Vec<Item> = Vec::new();
    let mut p: usize = 0;
    while p < tokens.len()
        invariant
            p <= tokens@.len(),
            tokens@.len() == 0 ==> items@.len() == 0,
        decreases tokens@.len() - p,
    {
        let (it, p2) = parse_item(tokens, p);
        match it {
            Err(e) => {
                return Err(e);
            },
            Ok(item) => {
                items.push(item);
                p = p2;
            },
        }
    }
    Ok(Program { items })
}

/// Lex and parse a whole source text.
pub fn parse(source: &str) -> (r: Result<Program, ParseError>) {
    let tokens = tokenize(source);
    program_parser(&tokens)
}

/// Parse a full token list as one type expression.
pub fn type_parser(tokens: &Vec<Token>) -> (r: Result<Type, ParseError>) {
    let (t, p) = parse_type(tokens, 0);
    match t {
        Err(e) => Err(e),
        Ok(ty) => {
            if p == tokens.len() {
                Ok(ty)
            } else {
                Err(ParseError { pos: p })
            }
        },
    }
}

/// Parse a full token list as one term.
pub fn term_parser(tokens: &Vec<Token>) -> (r: Result<Term, ParseError>) {
    let (t, p) = parse_term(tokens, 0);
    match t {
        Err(e) => Err(e),
        Ok(term) => {
            if p == tokens.len() {
                Ok(term)
            } else {
                Err(ParseError { pos: p })
            }
        },
    }
}

/// Parse a full token list as one atom.
pub fn atom_parser(tokens: &Vec<Token>) -> (r: Result<Atom, ParseError>) {
    let (a, p) = parse_atom(tokens, 0);
    match a {
        Err(e) => Err(e),
        Ok(atom) => {
            if p == tokens.len() {
                Ok(atom)
            } else {
                Err(ParseError { pos: p })
            }
        },
    }
}

/// Parse a full token list as one goal.
pub fn goal_parser(tokens: &Vec<Token>) -> (r: Result<Goal, ParseError>) {
    let (g, p) = parse_goal(tokens, 0);
    match g {
        Err(e) => Err(e),
        Ok(goal) => {
            if p == tokens.len() {
                Ok(goal)
            } else {
                Err(ParseError { pos: p })
            }
        },
    }
}

/// Parse a full token list as one type definition.
pub fn type_def_parser(tokens: &Vec<Token>) -> (r: Result<TypeDef, ParseError>) {
    let (d, p) = parse_type_def(tokens, 0);
    match d {
        Err(e) => Err(e),
        Ok(td) => {
            if p == tokens.len() {
                Ok(td)
            } else {
                Err(ParseError { pos: p })
            }
        },
    }
}

/// Parse a full token list as one relation declaration.
pub fn relation_decl_parser(tokens: &Vec<Token>) -> (r: Result<RelationDecl, ParseError>) {
    let (d, p) = parse_relation_decl(tokens, 0);
    match d {
        Err(e) => Err(e),
        Ok(rd) => {
            if p == tokens.len() {
                Ok(rd)
            } else {
                Err(ParseError { pos: p })
            }
        },
    }
}

/// Parse a full token list as one fact.
pub fn fact_parser(tokens: &Vec<Token>) -> (r: Result<Fact, ParseError>) {
    match item_parser(tokens) {
        Ok(Item::Fact(f)) => Ok(f),
        Ok(other) => Err(ParseError { pos: 0 }),
        Err(e) => Err(e),
    }
}

/// Parse a full token list as one rule.
pub fn rule_parser(tokens: &Vec<Token>) -> (r: Result<Rule, ParseError>) {
    match item_parser(tokens) {
        Ok(Item::Rule(rule)) => Ok(rule),
        Ok(other) => Err(ParseError { pos: 0 }),
        Err(e) => Err(e),
    }
}

/// Parse a full token list as one query.
pub fn query_parser(tokens: &Vec<Token>) -> (r: Result<Query, ParseError>) {
    let (q, p) = parse_query(tokens, 0);
    match q {
        Err(e) => Err(e),
        Ok(query) => {
            if p == tokens.len() {
                Ok(query)
            } else {
                Err(ParseError { pos: p })
            }
        },
    }
}

/// Parse a full token list as one top-level item.
pub fn item_parser(tokens: &Vec<Token>) -> (r: Result<Item, ParseError>) {
    let (it, p) = parse_item(tokens, 0);
    match it {
        Err(e) => Err(e),
        Ok(item) => {
            if p == tokens.len() {
                Ok(item)
            } else {
                Err(ParseError { pos: p })
            }
        },
    }
}

} // verus!
