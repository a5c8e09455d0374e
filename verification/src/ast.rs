//! Abstract syntax of the logic language, together with its mathematical
//! model: every syntactic category has a spec-level view that drops spans
//! and replaces strings and vectors by sequences, so that contracts can
//! speak about programs as pure values.
use vstd::prelude::*;

verus! {

/// Source location, as a half-open range of token positions.
#[derive(Debug, Clone, Copy, PartialEq, Eq, Structural)]
pub struct Span {
    pub start: usize,
    pub end: usize,
}

/// A complete program: an ordered list of top-level items.
#[derive(Debug)]
pub struct Program {
    pub items: Vec<Item>,
}

/// Top-level items.
#[derive(Debug)]
pub enum Item {
    TypeDef(TypeDef),
    RelationDecl(RelationDecl),
    Fact(Fact),
    Rule(Rule),
    Query(Query),
}

/// Type definition: `type Person = person(name: String, age: Int)`.
#[derive(Debug)]
pub struct TypeDef {
    pub name: String,
    pub def: TypeDefKind,
    pub span: Span,
}

/// The two layouts a defined type can have.
#[derive(Debug)]
pub enum TypeDefKind {
    /// Product type with one constructor and named fields.
    Product { constructor: String, fields: Vec<Field> },
    /// Sum type: an ordered set of nullary variants.
    Sum { variants: Vec<String> },
}

/// A named field of a product type.
#[derive(Debug)]
pub struct Field {
    pub name: String,
    pub ty: Type,
}

/// Type expressions.
#[derive(Debug, PartialEq, Eq)]
pub enum Type {
    /// Named type: `Person`, `Int`, `String`.
    Named(String),
    /// List type: `List<T>`.
    List(Box<Type>),
    /// Option type: `Option<T>`.
    Option(Box<Type>),
    /// Product type (for relation signatures): `Person × Int`.
    Product(Vec<Type>),
}

/// Relation declaration: `rel parent: Person × Person`.
#[derive(Debug)]
pub struct RelationDecl {
    pub name: String,
    pub signature: Type,
    pub span: Span,
}

/// Ground assertion: `parent(alice, bob).`
#[derive(Debug)]
pub struct Fact {
    pub relation: String,
    pub args: Vec<Term>,
    pub span: Span,
}

/// Horn clause: `ancestor(X, Z) :- parent(X, Y), ancestor(Y, Z).`
#[derive(Debug)]
pub struct Rule {
    pub head: Atom,
    pub body: Vec<Goal>,
    pub span: Span,
}

/// A relation applied to argument terms: `parent(X, Y)`.
#[derive(Debug)]
pub struct Atom {
    pub relation: String,
    pub args: Vec<Term>,
    pub span: Span,
}

/// Goals in rule bodies and queries.
#[derive(Debug)]
pub enum Goal {
    /// Relation call: `parent(X, Y)`.
    Atom(Atom),
    /// Unification: `X = Y`.
    Unify(Term, Term, Span),
    /// Comparison: `X < Y`.
    Compare(CompareOp, Term, Term, Span),
}

/// Comparison operators; the language orders integers only.
#[derive(Debug, Clone, Copy, PartialEq, Eq, Structural)]
pub enum CompareOp {
    Eq,
    Ne,
    Lt,
    Le,
    Gt,
    Ge,
}

/// Terms appearing in facts, rule heads, goals and queries.
#[derive(Debug)]
pub enum Term {
    /// Variable: `X`, `Y`, `Age`.
    Var(String, Span),
    /// Integer literal: `42`.
    Int(i64, Span),
    /// String literal: `"hello"`.
    String(String, Span),
    /// Constructor application: `person("Alice", 45)`.
    Construct { constructor: String, args: Vec<Term>, span: Span },
    /// Binary arithmetic: `X + Y`.
    BinOp { op: BinOp, left: Box<Term>, right: Box<Term>, span: Span },
}

/// Arithmetic operators over `Int`.
#[derive(Debug, Clone, Copy, PartialEq, Eq, Structural)]
pub enum BinOp {
    Add,
    Sub,
    Mul,
    Div,
    Mod,
}

/// Query: `?- ancestor(alice, X).`
#[derive(Debug)]
pub struct Query {
    pub goals: Vec<Goal>,
    pub span: Span,
}

impl Term {
    /// The source span of any term.
    pub fn span(&self) -> (s: &Span)
        ensures
            *s == term_span(self),
    {
        match self {
            Term::Var(_, span) => span,
            Term::Int(_, span) => span,
            Term::String(_, span) => span,
            Term::Construct { span, .. } => span,
            Term::BinOp { span, .. } => span,
        }
    }
}

/// The span carried by a term, as a spec-level function.
pub open spec fn term_span(t: &Term) -> Span {
    match t {
        Term::Var(_, span) => *span,
        Term::Int(_, span) => *span,
        Term::String(_, span) => *span,
        Term::Construct { span, .. } => *span,
        Term::BinOp { span, .. } => *span,
    }
}

// ------------------------------------------------------------------
// Mathematical model of the syntax.
// ------------------------------------------------------------------

/// Model of `Type`.
pub enum TyV {
    Named(Seq<char>),
    ListOf(Box<TyV>),
    OptionOf(Box<TyV>),
    ProductOf(Seq<TyV>),
}

/// Model of `Field`.
pub struct FieldV {
    pub name: Seq<char>,
    pub ty: TyV,
}

/// Model of `TypeDefKind`.
pub enum TypeDefKindV {
    Product { constructor: Seq<char>, fields: Seq<FieldV> },
    Sum { variants: Seq<Seq<char>> },
}

/// Model of `TypeDef`.
pub struct TypeDefV {
    pub name: Seq<char>,
    pub def: TypeDefKindV,
}

/// Model of `RelationDecl`.
pub struct RelationDeclV {
    pub name: Seq<char>,
    pub signature: TyV,
}

/// Model of `Term`.
pub enum TermV {
    Var(Seq<char>),
    Int(i64),
    Str(Seq<char>),
    Construct { constructor: Seq<char>, args: Seq<TermV> },
    BinOp { op: BinOp, left: Box<TermV>, right: Box<TermV> },
}

/// Model of `Atom`.
pub struct AtomV {
    pub relation: Seq<char>,
    pub args: Seq<TermV>,
}

/// Model of `Goal`.
pub enum GoalV {
    Atom(AtomV),
    Unify(TermV, TermV),
    Compare(CompareOp, TermV, TermV),
}

/// Model of `Fact`.
pub struct FactV {
    pub relation: Seq<char>,
    pub args: Seq<TermV>,
}

/// Model of `Rule`.
pub struct RuleV {
    pub head: AtomV,
    pub body: Seq<GoalV>,
}

/// Model of `Query`.
pub struct QueryV {
    pub goals: Seq<GoalV>,
}

/// Model of `Item`.
pub enum ItemV {
    TypeDef(TypeDefV),
    RelationDecl(RelationDeclV),
    Fact(FactV),
    Rule(RuleV),
    Query(QueryV),
}

// ------------------------------------------------------------------
// Views from syntax to model.
// ------------------------------------------------------------------

pub open spec fn ty_view(t: Type) -> TyV
    decreases t,
{
    match t {
        Type::Named(n) => TyV::Named(n@),
        Type::List(inner) => TyV::ListOf(Box::new(ty_view(*inner))),
        Type::Option(inner) => TyV::OptionOf(Box::new(ty_view(*inner))),
        Type::Product(ts) => TyV::ProductOf(tys_view(ts@)),
    }
}

pub open spec fn tys_view(ts: Seq<Type>) -> Seq<TyV>
    decreases ts,
{
    Seq::new(
        ts.len(),
        |i: int|
            if 0 <= i < ts.len() {
                ty_view(ts[i])
            } else {
                TyV::ProductOf(Seq::empty())
            },
    )
}

pub open spec fn field_view(f: Field) -> FieldV {
    FieldV { name: f.name@, ty: ty_view(f.ty) }
}

pub open spec fn tdk_view(d: TypeDefKind) -> TypeDefKindV {
    match d {
        TypeDefKind::Product { constructor, fields } => TypeDefKindV::Product {
            constructor: constructor@,
            fields: Seq::new(fields@.len(), |i: int| field_view(fields@[i])),
        },
        TypeDefKind::Sum { variants } => TypeDefKindV::Sum {
            variants: Seq::new(variants@.len(), |i: int| variants@[i]@),
        },
    }
}

pub open spec fn typedef_view(d: TypeDef) -> TypeDefV {
    TypeDefV { name: d.name@, def: tdk_view(d.def) }
}

pub open spec fn reldecl_view(d: RelationDecl) -> RelationDeclV {
    RelationDeclV { name: d.name@, signature: ty_view(d.signature) }
}

pub open spec fn term_view(t: Term) -> TermV
    decreases t,
{
    match t {
        Term::Var(n, _) => TermV::Var(n@),
        Term::Int(n, _) => TermV::Int(n),
        Term::String(s, _) => TermV::Str(s@),
        Term::Construct { constructor, args, .. } => TermV::Construct {
            constructor: constructor@,
            args: terms_view(args@),
        },
        Term::BinOp { op, left, right, .. } => TermV::BinOp {
            op,
            left: Box::new(term_view(*left)),
            right: Box::new(term_view(*right)),
        },
    }
}

pub open spec fn terms_view(ts: Seq<Term>) -> Seq<TermV>
    decreases ts,
{
    Seq::new(
        ts.len(),
        |i: int|
            if 0 <= i < ts.len() {
                term_view(ts[i])
            } else {
                TermV::Int(0)
            },
    )
}

pub open spec fn atom_view(a: Atom) -> AtomV {
    AtomV { relation: a.relation@, args: terms_view(a.args@) }
}

pub open spec fn goal_view(g: Goal) -> GoalV {
    match g {
        Goal::Atom(a) => GoalV::Atom(atom_view(a)),
        Goal::Unify(l, r, _) => GoalV::Unify(term_view(l), term_view(r)),
        Goal::Compare(op, l, r, _) => GoalV::Compare(op, term_view(l), term_view(r)),
    }
}

pub open spec fn goals_view(gs: Seq<Goal>) -> Seq<GoalV> {
    Seq::new(gs.len(), |i: int| goal_view(gs[i]))
}

pub open spec fn fact_view(f: Fact) -> FactV {
    FactV { relation: f.relation@, args: terms_view(f.args@) }
}

pub open spec fn rule_view(r: Rule) -> RuleV {
    RuleV { head: atom_view(r.head), body: goals_view(r.body@) }
}

pub open spec fn query_view(q: Query) -> QueryV {
    QueryV { goals: goals_view(q.goals@) }
}

pub open spec fn item_view(it: Item) -> ItemV {
    match it {
        Item::TypeDef(d) => ItemV::TypeDef(typedef_view(d)),
        Item::RelationDecl(d) => ItemV::RelationDecl(reldecl_view(d)),
        Item::Fact(f) => ItemV::Fact(fact_view(f)),
        Item::Rule(r) => ItemV::Rule(rule_view(r)),
        Item::Query(q) => ItemV::Query(query_view(q)),
    }
}

pub open spec fn program_view(p: Program) -> Seq<ItemV> {
    Seq::new(p.items@.len(), |i: int| item_view(p.items@[i]))
}

// ------------------------------------------------------------------
// Groundness.
// ------------------------------------------------------------------

/// A term is ground when it contains no variable, recursively through
/// constructor arguments and binary operators.
pub open spec fn termv_is_ground(t: TermV) -> bool
    decreases t,
{
    match t {
        TermV::Var(_) => false,
        TermV::Int(_) => true,
        TermV::Str(_) => true,
        TermV::Construct { args, .. } => termsv_are_ground(args),
        TermV::BinOp { left, right, .. } => termv_is_ground(*left) && termv_is_ground(*right),
    }
}

pub open spec fn termsv_are_ground(ts: Seq<TermV>) -> bool
    decreases ts,
{
    forall|i: int| 0 <= i < ts.len() ==> termv_is_ground(#[trigger] ts[i])
}

// ------------------------------------------------------------------
// Verified deep copies.
//
// The derived `Clone` on these types is invisible to the verifier, so
// the copies the checker needs are implemented by hand, with the view
// equality they guarantee stated as a contract.
// ------------------------------------------------------------------

impl Clone for Type {
    #[verifier::loop_isolation(false)]
    fn clone(&self) -> (r: Self)
        ensures
            ty_view(r) == ty_view(*self),
        decreases self,
    {
        match self {
            Type::Named(n) => Type::Named(n.clone()),
            Type::List(inner) => Type::List(Box::new((**inner).clone())),
            Type::Option(inner) => Type::Option(Box::new((**inner).clone())),
            Type::Product(ts) => {
                let mut copies: Vec<Type> = Vec::new();
                let mut i: usize = 0;
                while i < ts.len()
                    invariant
                        i <= ts.len(),
                        copies@.len() == i,
                        forall|j: int|
                            0 <= j < i ==> ty_view(copies@[j]) == ty_view(ts@[j]),
                    decreases ts.len() - i,
                {
                    proof {
                        assert(decreases_to!(*self => *ts));
                        assert(decreases_to!(*ts => ts[i as int]));
                        assert(decreases_to!(*self => ts[i as int]));
                    }
                    copies.push(ts[i].clone());
                    i = i + 1;
                }
                proof {
                    assert(tys_view(copies@) =~= tys_view(ts@));
                }
                Type::Product(copies)
            },
        }
    }
}

impl Clone for Field {
    fn clone(&self) -> (r: Self)
        ensures
            field_view(r) == field_view(*self),
    {
        Field { name: self.name.clone(), ty: self.ty.clone() }
    }
}

impl Clone for TypeDefKind {
    fn clone(&self) -> (r: Self)
        ensures
            tdk_view(r) == tdk_view(*self),
    {
        match self {
            TypeDefKind::Product { constructor, fields } => {
                let mut copies: Vec<Field> = Vec::new();
                let mut i: usize = 0;
                while i < fields.len()
                    invariant
                        i <= fields.len(),
                        copies@.len() == i,
                        forall|j: int|
                            0 <= j < i ==> field_view(copies@[j]) == field_view(fields@[j]),
                    decreases fields.len() - i,
                {
                    copies.push(fields[i].clone());
                    i = i + 1;
                }
                let r = TypeDefKind::Product { constructor: constructor.clone(), fields: copies };
                proof {
                    assert(Seq::new(copies@.len(), |i: int| field_view(copies@[i])) =~= Seq::new(
                        fields@.len(),
                        |i: int| field_view(fields@[i]),
                    ));
                }
                r
            },
            TypeDefKind::Sum { variants } => {
                let mut copies: Vec<String> = Vec::new();
                let mut i: usize = 0;
                while i < variants.len()
                    invariant
                        i <= variants.len(),
                        copies@.len() == i,
                        forall|j: int| 0 <= j < i ==> copies@[j]@ == variants@[j]@,
                    decreases variants.len() - i,
                {
                    copies.push(variants[i].clone());
                    i = i + 1;
                }
                let r = TypeDefKind::Sum { variants: copies };
                proof {
                    assert(Seq::new(copies@.len(), |i: int| copies@[i]@) =~= Seq::new(
                        variants@.len(),
                        |i: int| variants@[i]@,
                    ));
                }
                r
            },
        }
    }
}

} // verus!
