//! Intermediate representation and lowering.
//!
//! A checked program is lowered to an explicit form: type definitions
//! with a concrete memory layout, one `IrRelation` per declared
//! relation carrying its facts and rules, and lowered queries.  Rule
//! lowering resolves every source variable through a per-rule name
//! table, so two occurrences of one name share one `VarId`, and marks
//! a rule as needing tabled evaluation exactly when its body calls its
//! own head relation.
use vstd::prelude::*;

use crate::ast::Atom;
use crate::ast::AtomV;
use crate::ast::Fact;
use crate::ast::FactV;
use crate::ast::FieldV;
use crate::ast::Goal;
use crate::ast::GoalV;
use crate::ast::Item;
use crate::ast::ItemV;
use crate::ast::Program;
use crate::ast::Query;
use crate::ast::QueryV;
use crate::ast::RelationDecl;
use crate::ast::RelationDeclV;
use crate::ast::Rule;
use crate::ast::RuleV;
use crate::ast::Term;
use crate::ast::TermV;
use crate::ast::TyV;
use crate::ast::Type;
use crate::ast::TypeDef;
use crate::ast::TypeDefKind;
use crate::ast::TypeDefKindV;
use crate::ast::TypeDefV;
use crate::ast::atom_view;
use crate::ast::fact_view;
use crate::ast::goal_view;
use crate::ast::goals_view;
use crate::ast::program_view;
use crate::ast::query_view;
use crate::ast::reldecl_view;
use crate::ast::rule_view;
use crate::ast::term_view;
use crate::ast::terms_view;
use crate::ast::tdk_view;
use crate::ast::ty_view;
use crate::ast::tys_view;
use crate::ast::typedef_view;
use crate::text::str_eq;
use crate::types::assoc_lookup;
use crate::types::lemma_assoc_skip;

verus! {

/// A compiled program in IR form.
#[derive(Debug)]
pub struct IrProgram {
    pub types: Vec<IrTypeDef>,
    pub relations: Vec<IrRelation>,
    pub queries: Vec<IrQuery>,
}

/// IR type definition with memory layout information.
#[derive(Debug)]
pub struct IrTypeDef {
    pub name: String,
    pub layout: TypeLayout,
}

/// Concrete layouts: products become structs, sums tagged unions.
#[derive(Debug)]
pub enum TypeLayout {
    /// Product type with known fields.
    Struct { fields: Vec<(String, Type)>, size_bytes: usize, align_bytes: usize },
    /// Sum type (tagged union).
    Enum { variants: Vec<String>, tag_size: usize, max_variant_size: usize },
}

/// IR relation: declared signature plus collected facts and rules.
#[derive(Debug)]
pub struct IrRelation {
    pub name: String,
    pub signature: Type,
    pub facts: Vec<IrFact>,
    pub rules: Vec<IrRule>,
    pub modes: Vec<IrMode>,
}

/// An input/output pattern of a relation with its compiled
/// implementation.
#[derive(Debug)]
pub struct IrMode {
    pub pattern: Vec<ModeAnnotation>,
    pub implementation: IrPredicate,
}

/// Per-argument mode: ground at call time, or computed by the call.
#[derive(Debug, Clone, Copy, PartialEq, Eq, Structural)]
pub enum ModeAnnotation {
    Input,
    Output,
}

/// A fact in IR form: ground values only.
#[derive(Debug)]
pub struct IrFact {
    pub args: Vec<IrValue>,
}

/// A rule in IR form, with its tabling requirement made explicit.
#[derive(Debug)]
pub struct IrRule {
    pub head: IrAtom,
    pub body: Vec<IrGoal>,
    pub needs_tabling: bool,
}

#[derive(Debug)]
pub struct IrAtom {
    pub relation: String,
    pub args: Vec<IrTerm>,
}

#[derive(Debug)]
pub enum IrGoal {
    /// Call a relation under a mode.
    Call { relation: String, mode_index: usize, args: Vec<IrTerm> },
    /// Unify two terms.
    Unify { left: IrTerm, right: IrTerm },
    /// Compare two terms.
    Compare { op: CompareOp, left: IrTerm, right: IrTerm },
}

#[derive(Debug, Clone, Copy, PartialEq, Eq, Structural)]
pub enum CompareOp {
    Eq,
    Ne,
    Lt,
    Le,
    Gt,
    Ge,
}

/// Terms in IR.
#[derive(Debug)]
pub enum IrTerm {
    /// Logical variable.
    Var(VarId),
    /// Constant value.
    Value(IrValue),
    /// Constructor application over sub-terms; carries the variables
    /// of a pattern such as a rule head's `person(N, A)`.
    Construct { constructor: String, args: Vec<IrTerm> },
    /// Field access.
    FieldAccess { base: Box<IrTerm>, field: String },
    /// Binary operation.
    BinOp { op: BinOp, left: Box<IrTerm>, right: Box<IrTerm> },
}

/// Identity of a logical variable within one rule or query lowering
/// scope: the index of its first occurrence in that scope's name
/// table.
#[derive(Debug, Clone, Copy, PartialEq, Eq, Hash, Structural)]
pub struct VarId(pub usize);

#[derive(Debug, Clone, Copy, PartialEq, Eq, Structural)]
pub enum BinOp {
    Add,
    Sub,
    Mul,
    Div,
    Mod,
}

/// Ground values in IR.
#[derive(Debug, PartialEq)]
pub enum IrValue {
    Int(i64),
    String(String),
    Struct { ty_name: String, fields: Vec<IrValue> },
    Variant { ty_name: String, variant: String },
}

/// Compiled predicate implementation; filled by later stages.
#[derive(Debug)]
pub struct IrPredicate {
    pub params: Vec<IrParam>,
    pub body: Vec<IrInstruction>,
}

#[derive(Debug)]
pub struct IrParam {
    pub var: VarId,
    pub ty: Type,
    pub mode: ModeAnnotation,
}

/// Low-level IR instructions for compiled predicates.
#[derive(Debug)]
pub enum IrInstruction {
    /// Allocate in the query arena.
    Alloc { dest: VarId, ty: Type },
    /// Load from memory.
    Load { dest: VarId, src: VarId, offset: usize },
    /// Store to memory.
    Store { dest: VarId, src: VarId, offset: usize },
    /// Unify two variables.
    Unify { left: VarId, right: VarId },
    /// Call a relation.
    Call { dest: Option<VarId>, relation: String, mode: usize, args: Vec<VarId> },
    /// Memo-table lookup.
    TableLookup { dest: VarId, table: String, key: VarId },
    /// Memo-table insert.
    TableInsert { table: String, key: VarId, value: VarId },
    /// Conditional branch.
    Branch { cond: VarId, true_block: BlockId, false_block: BlockId },
    /// Return from a predicate.
    Return { value: Option<VarId> },
}

#[derive(Debug, Clone, Copy, PartialEq, Eq, Hash, Structural)]
pub struct BlockId(pub usize);

/// A lowered query.
#[derive(Debug)]
pub struct IrQuery {
    pub goals: Vec<IrGoal>,
}

// ------------------------------------------------------------------
// Model of the IR.
// ------------------------------------------------------------------

pub enum IrValueV {
    Int(i64),
    Str(Seq<char>),
    Struct { ty_name: Seq<char>, fields: Seq<IrValueV> },
    Variant { ty_name: Seq<char>, variant: Seq<char> },
}

pub enum IrTermV {
    Var(int),
    Value(IrValueV),
    Construct { constructor: Seq<char>, args: Seq<IrTermV> },
    FieldAccess { base: Box<IrTermV>, field: Seq<char> },
    BinOp { op: BinOp, left: Box<IrTermV>, right: Box<IrTermV> },
}

pub enum IrGoalV {
    Call { relation: Seq<char>, mode_index: int, args: Seq<IrTermV> },
    Unify { left: IrTermV, right: IrTermV },
    Compare { op: CompareOp, left: IrTermV, right: IrTermV },
}

pub struct IrAtomV {
    pub relation: Seq<char>,
    pub args: Seq<IrTermV>,
}

pub struct IrFactV {
    pub args: Seq<IrValueV>,
}

pub struct IrRuleV {
    pub head: IrAtomV,
    pub body: Seq<IrGoalV>,
    pub needs_tabling: bool,
}

/// Model of a mode: its input/output pattern.  The compiled
/// implementation a mode carries is a placeholder for later stages
/// and stays outside the model.
pub type IrModeV = Seq<ModeAnnotation>;

pub struct IrRelationV {
    pub name: Seq<char>,
    pub signature: TyV,
    pub facts: Seq<IrFactV>,
    pub rules: Seq<IrRuleV>,
    pub modes: Seq<IrModeV>,
}

pub enum TypeLayoutV {
    Struct { fields: Seq<(Seq<char>, TyV)>, size_bytes: int, align_bytes: int },
    Enum { variants: Seq<Seq<char>>, tag_size: int, max_variant_size: int },
}

pub struct IrTypeDefV {
    pub name: Seq<char>,
    pub layout: TypeLayoutV,
}

pub struct IrQueryV {
    pub goals: Seq<IrGoalV>,
}

pub struct IrProgramV {
    pub types: Seq<IrTypeDefV>,
    pub relations: Seq<IrRelationV>,
    pub queries: Seq<IrQueryV>,
}

// ------------------------------------------------------------------
// Views from IR to its model.
// ------------------------------------------------------------------

pub open spec fn ir_value_view(v: IrValue) -> IrValueV
    decreases v,
{
    match v {
        IrValue::Int(n) => IrValueV::Int(n),
        IrValue::String(s) => IrValueV::Str(s@),
        IrValue::Struct { ty_name, fields } => IrValueV::Struct {
            ty_name: ty_name@,
            fields: ir_values_view(fields@),
        },
        IrValue::Variant { ty_name, variant } => IrValueV::Variant {
            ty_name: ty_name@,
            variant: variant@,
        },
    }
}

pub open spec fn ir_values_view(vs: Seq<IrValue>) -> Seq<IrValueV>
    decreases vs,
{
    Seq::new(
        vs.len(),
        |i: int|
            if 0 <= i < vs.len() {
                ir_value_view(vs[i])
            } else {
                IrValueV::Int(0)
            },
    )
}

pub open spec fn ir_term_view(t: IrTerm) -> IrTermV
    decreases t,
{
    match t {
        IrTerm::Var(v) => IrTermV::Var(v.0 as int),
        IrTerm::Value(v) => IrTermV::Value(ir_value_view(v)),
        IrTerm::Construct { constructor, args } => IrTermV::Construct {
            constructor: constructor@,
            args: ir_terms_view(args@),
        },
        IrTerm::FieldAccess { base, field } => IrTermV::FieldAccess {
            base: Box::new(ir_term_view(*base)),
            field: field@,
        },
        IrTerm::BinOp { op, left, right } => IrTermV::BinOp {
            op,
            left: Box::new(ir_term_view(*left)),
            right: Box::new(ir_term_view(*right)),
        },
    }
}

pub open spec fn ir_terms_view(ts: Seq<IrTerm>) -> Seq<IrTermV>
    decreases ts,
{
    Seq::new(
        ts.len(),
        |i: int|
            if 0 <= i < ts.len() {
                ir_term_view(ts[i])
            } else {
                IrTermV::Var(0)
            },
    )
}

pub open spec fn ir_goal_view(g: IrGoal) -> IrGoalV {
    match g {
        IrGoal::Call { relation, mode_index, args } => IrGoalV::Call {
            relation: relation@,
            mode_index: mode_index as int,
            args: ir_terms_view(args@),
        },
        IrGoal::Unify { left, right } => IrGoalV::Unify {
            left: ir_term_view(left),
            right: ir_term_view(right),
        },
        IrGoal::Compare { op, left, right } => IrGoalV::Compare {
            op,
            left: ir_term_view(left),
            right: ir_term_view(right),
        },
    }
}

pub open spec fn ir_goals_view(gs: Seq<IrGoal>) -> Seq<IrGoalV> {
    Seq::new(gs.len(), |i: int| ir_goal_view(gs[i]))
}

pub open spec fn ir_atom_view(a: IrAtom) -> IrAtomV {
    IrAtomV { relation: a.relation@, args: ir_terms_view(a.args@) }
}

pub open spec fn ir_fact_view(f: IrFact) -> IrFactV {
    IrFactV { args: ir_values_view(f.args@) }
}

pub open spec fn ir_rule_view(r: IrRule) -> IrRuleV {
    IrRuleV {
        head: ir_atom_view(r.head),
        body: ir_goals_view(r.body@),
        needs_tabling: r.needs_tabling,
    }
}

pub open spec fn ir_mode_view(m: IrMode) -> IrModeV {
    m.pattern@
}

pub open spec fn ir_relation_view(r: IrRelation) -> IrRelationV {
    IrRelationV {
        name: r.name@,
        signature: ty_view(r.signature),
        facts: Seq::new(r.facts@.len(), |i: int| ir_fact_view(r.facts@[i])),
        rules: Seq::new(r.rules@.len(), |i: int| ir_rule_view(r.rules@[i])),
        modes: Seq::new(r.modes@.len(), |i: int| ir_mode_view(r.modes@[i])),
    }
}

pub open spec fn type_layout_view(l: TypeLayout) -> TypeLayoutV {
    match l {
        TypeLayout::Struct { fields, size_bytes, align_bytes } => TypeLayoutV::Struct {
            fields: Seq::new(fields@.len(), |i: int| (fields@[i].0@, ty_view(fields@[i].1))),
            size_bytes: size_bytes as int,
            align_bytes: align_bytes as int,
        },
        TypeLayout::Enum { variants, tag_size, max_variant_size } => TypeLayoutV::Enum {
            variants: Seq::new(variants@.len(), |i: int| variants@[i]@),
            tag_size: tag_size as int,
            max_variant_size: max_variant_size as int,
        },
    }
}

pub open spec fn ir_typedef_view(d: IrTypeDef) -> IrTypeDefV {
    IrTypeDefV { name: d.name@, layout: type_layout_view(d.layout) }
}

pub open spec fn ir_query_view(q: IrQuery) -> IrQueryV {
    IrQueryV { goals: ir_goals_view(q.goals@) }
}

pub open spec fn ir_typedefs_view(v: Seq<IrTypeDef>) -> Seq<IrTypeDefV> {
    Seq::new(v.len(), |i: int| ir_typedef_view(v[i]))
}

pub open spec fn ir_relations_view(v: Seq<IrRelation>) -> Seq<IrRelationV> {
    Seq::new(v.len(), |i: int| ir_relation_view(v[i]))
}

pub open spec fn ir_queries_view(v: Seq<IrQuery>) -> Seq<IrQueryV> {
    Seq::new(v.len(), |i: int| ir_query_view(v[i]))
}

pub open spec fn ir_program_view(p: IrProgram) -> IrProgramV {
    IrProgramV {
        types: ir_typedefs_view(p.types@),
        relations: ir_relations_view(p.relations@),
        queries: ir_queries_view(p.queries@),
    }
}

// ------------------------------------------------------------------
// Spec twins of lowering.
// ------------------------------------------------------------------

/// Addition saturating at the largest `usize` value, as layout sizes
/// do.
pub open spec fn sat_add(a: int, b: int) -> int {
    if a + b > usize::MAX {
        usize::MAX as int
    } else {
        a + b
    }
}

/// Fixed widths: `Int` is one word, `String` and `List` fat pointers,
/// `Option` a tag plus value, any other named type a pointer.
pub open spec fn ty_size_spec(t: TyV) -> int
    decreases t,
{
    match t {
        TyV::Named(n) => if n == "Int"@ {
            8
        } else if n == "String"@ {
            16
        } else {
            8
        },
        TyV::ListOf(_) => 16,
        TyV::OptionOf(_) => 16,
        TyV::ProductOf(ts) => tys_size_spec(ts),
    }
}

/// Nested products flatten by summation.
pub open spec fn tys_size_spec(ts: Seq<TyV>) -> int
    decreases ts,
{
    if ts.len() == 0 {
        0
    } else {
        sat_add(tys_size_spec(ts.drop_last()), ty_size_spec(ts.last()))
    }
}

pub open spec fn fields_size_spec(fields: Seq<FieldV>) -> int
    decreases fields,
{
    if fields.len() == 0 {
        0
    } else {
        sat_add(fields_size_spec(fields.drop_last()), ty_size_spec(fields.last().ty))
    }
}

/// Layout of one type definition: products get their field list, the
/// summed byte size and 8-byte alignment; sums get their variants, an
/// 8-byte tag and placeholder variant-size tracking.
pub open spec fn lower_typedef_spec(d: TypeDefV) -> IrTypeDefV {
    IrTypeDefV {
        name: d.name,
        layout: match d.def {
            TypeDefKindV::Product { constructor, fields } => TypeLayoutV::Struct {
                fields: Seq::new(fields.len(), |i: int| (fields[i].name, fields[i].ty)),
                size_bytes: fields_size_spec(fields),
                align_bytes: 8,
            },
            TypeDefKindV::Sum { variants } => TypeLayoutV::Enum {
                variants,
                tag_size: 8,
                max_variant_size: 0,
            },
        },
    }
}

/// Wrapping 64-bit arithmetic; division and remainder yield 0 when
/// undefined, so that fact lowering is total.
pub open spec fn eval_binop_spec(op: crate::ast::BinOp, a: i64, b: i64) -> i64 {
    match op {
        crate::ast::BinOp::Add => a.wrapping_add(b),
        crate::ast::BinOp::Sub => a.wrapping_sub(b),
        crate::ast::BinOp::Mul => a.wrapping_mul(b),
        crate::ast::BinOp::Div => match a.checked_div(b) {
            Some(q) => q,
            None => 0,
        },
        crate::ast::BinOp::Mod => match a.checked_rem(b) {
            Some(q) => q,
            None => 0,
        },
    }
}

/// Integer value of a ground term; placeholder 0 for anything a
/// checked program cannot put here.
pub open spec fn eval_ground_spec(t: TermV) -> i64
    decreases t,
{
    match t {
        TermV::Int(n) => n,
        TermV::BinOp { op, left, right } => eval_binop_spec(
            op,
            eval_ground_spec(*left),
            eval_ground_spec(*right),
        ),
        _ => 0,
    }
}

/// Ground value a term lowers to in a fact position.  A variable —
/// which the checker never lets reach a fact position — lowers to the
/// placeholder 0 rather than failing, so fact lowering is total even
/// on unchecked input.
pub open spec fn lower_value_spec(t: TermV) -> IrValueV
    decreases t,
{
    match t {
        TermV::Int(n) => IrValueV::Int(n),
        TermV::Str(s) => IrValueV::Str(s),
        TermV::Construct { constructor, args } => IrValueV::Struct {
            ty_name: constructor,
            fields: Seq::new(
                args.len(),
                |i: int|
                    if 0 <= i < args.len() {
                        lower_value_spec(args[i])
                    } else {
                        IrValueV::Int(0)
                    },
            ),
        },
        TermV::BinOp { .. } => IrValueV::Int(eval_ground_spec(t)),
        TermV::Var(_) => IrValueV::Int(0),
    }
}

pub open spec fn lower_fact_spec(f: FactV) -> IrFactV {
    IrFactV { args: Seq::new(f.args.len(), |i: int| lower_value_spec(f.args[i])) }
}

/// Per-scope variable tables: names in order of first occurrence,
/// each bound to its table index.
pub type VarTabV = Seq<(Seq<char>, int)>;

pub open spec fn lower_binop_spec(op: crate::ast::BinOp) -> BinOp {
    match op {
        crate::ast::BinOp::Add => BinOp::Add,
        crate::ast::BinOp::Sub => BinOp::Sub,
        crate::ast::BinOp::Mul => BinOp::Mul,
        crate::ast::BinOp::Div => BinOp::Div,
        crate::ast::BinOp::Mod => BinOp::Mod,
    }
}

pub open spec fn lower_compare_op_spec(op: crate::ast::CompareOp) -> CompareOp {
    match op {
        crate::ast::CompareOp::Eq => CompareOp::Eq,
        crate::ast::CompareOp::Ne => CompareOp::Ne,
        crate::ast::CompareOp::Lt => CompareOp::Lt,
        crate::ast::CompareOp::Le => CompareOp::Le,
        crate::ast::CompareOp::Gt => CompareOp::Gt,
        crate::ast::CompareOp::Ge => CompareOp::Ge,
    }
}

/// Lower one term inside a rule or query scope.  A variable resolves
/// through the name table, minting a fresh id — the next table index —
/// only on first sight; constructor applications and operators lower
/// structurally, recursively lowering their sub-terms, so a variable
/// beneath a constructor resolves through the same table.
pub open spec fn lower_term_spec(t: TermV, tab: VarTabV) -> (IrTermV, VarTabV)
    decreases t,
{
    match t {
        TermV::Var(n) => match assoc_lookup(tab, n) {
            Some(id) => (IrTermV::Var(id), tab),
            None => (IrTermV::Var(tab.len() as int), tab.push((n, tab.len() as int))),
        },
        TermV::Int(n) => (IrTermV::Value(IrValueV::Int(n)), tab),
        TermV::Str(s) => (IrTermV::Value(IrValueV::Str(s)), tab),
        TermV::Construct { constructor, args } => {
            let (sub, tab1) = lower_terms_spec(args, tab);
            (IrTermV::Construct { constructor, args: sub }, tab1)
        },
        TermV::BinOp { op, left, right } => {
            let (l, tab1) = lower_term_spec(*left, tab);
            let (r, tab2) = lower_term_spec(*right, tab1);
            (IrTermV::BinOp { op: lower_binop_spec(op), left: Box::new(l), right: Box::new(r) }, tab2)
        },
    }
}

pub open spec fn lower_terms_spec(ts: Seq<TermV>, tab: VarTabV) -> (Seq<IrTermV>, VarTabV)
    decreases ts,
{
    if ts.len() == 0 {
        (Seq::empty(), tab)
    } else {
        let (init, tab1) = lower_terms_spec(ts.drop_last(), tab);
        let (last, tab2) = lower_term_spec(ts.last(), tab1);
        (init.push(last), tab2)
    }
}

pub open spec fn lower_atom_spec(a: AtomV, tab: VarTabV) -> (IrAtomV, VarTabV) {
    let (args, tab1) = lower_terms_spec(a.args, tab);
    (IrAtomV { relation: a.relation, args }, tab1)
}

/// Every call site is lowered under the default mode 0; refinement is
/// a later stage's concern.
pub open spec fn lower_goal_spec(g: GoalV, tab: VarTabV) -> (IrGoalV, VarTabV) {
    match g {
        GoalV::Atom(a) => {
            let (args, tab1) = lower_terms_spec(a.args, tab);
            (IrGoalV::Call { relation: a.relation, mode_index: 0, args }, tab1)
        },
        GoalV::Unify(l, r) => {
            let (lt, tab1) = lower_term_spec(l, tab);
            let (rt, tab2) = lower_term_spec(r, tab1);
            (IrGoalV::Unify { left: lt, right: rt }, tab2)
        },
        GoalV::Compare(op, l, r) => {
            let (lt, tab1) = lower_term_spec(l, tab);
            let (rt, tab2) = lower_term_spec(r, tab1);
            (IrGoalV::Compare { op: lower_compare_op_spec(op), left: lt, right: rt }, tab2)
        },
    }
}

pub open spec fn lower_goals_spec(gs: Seq<GoalV>, tab: VarTabV) -> (Seq<IrGoalV>, VarTabV)
    decreases gs,
{
    if gs.len() == 0 {
        (Seq::empty(), tab)
    } else {
        let (init, tab1) = lower_goals_spec(gs.drop_last(), tab);
        let (last, tab2) = lower_goal_spec(gs.last(), tab1);
        (init.push(last), tab2)
    }
}

/// Direct self-recursion: the rule's body calls its own head relation.
pub open spec fn rule_self_recursive(r: RuleV) -> bool {
    exists|i: int|
        0 <= i < r.body.len() && (#[trigger] r.body[i]) is Atom && r.body[i]->Atom_0.relation
            == r.head.relation
}

/// Lower one rule: a fresh name table scopes its variables; the head
/// is lowered first, then the body goals in order; `needs_tabling` is
/// set exactly when the rule is directly self-recursive.
pub open spec fn lower_rule_spec(r: RuleV) -> IrRuleV {
    let (head, tab1) = lower_atom_spec(r.head, Seq::empty());
    let (body, tab2) = lower_goals_spec(r.body, tab1);
    IrRuleV { head, body, needs_tabling: rule_self_recursive(r) }
}

/// Lower one query in its own fresh variable scope.
pub open spec fn lower_query_spec(q: QueryV) -> IrQueryV {
    let (goals, tab1) = lower_goals_spec(q.goals, Seq::empty());
    IrQueryV { goals }
}

// Suffix views of a program's items, by kind.

pub open spec fn typedefs_from(items: Seq<ItemV>, i: int) -> Seq<TypeDefV>
    decreases items.len() - i,
{
    if i < 0 || i >= items.len() {
        Seq::empty()
    } else {
        let rest = typedefs_from(items, i + 1);
        match items[i] {
            ItemV::TypeDef(d) => seq![d] + rest,
            _ => rest,
        }
    }
}

pub open spec fn decls_from(items: Seq<ItemV>, i: int) -> Seq<RelationDeclV>
    decreases items.len() - i,
{
    if i < 0 || i >= items.len() {
        Seq::empty()
    } else {
        let rest = decls_from(items, i + 1);
        match items[i] {
            ItemV::RelationDecl(d) => seq![d] + rest,
            _ => rest,
        }
    }
}

pub open spec fn facts_of_from(items: Seq<ItemV>, name: Seq<char>, i: int) -> Seq<FactV>
    decreases items.len() - i,
{
    if i < 0 || i >= items.len() {
        Seq::empty()
    } else {
        let rest = facts_of_from(items, name, i + 1);
        match items[i] {
            ItemV::Fact(f) => if f.relation == name {
                seq![f] + rest
            } else {
                rest
            },
            _ => rest,
        }
    }
}

pub open spec fn rules_of_from(items: Seq<ItemV>, name: Seq<char>, i: int) -> Seq<RuleV>
    decreases items.len() - i,
{
    if i < 0 || i >= items.len() {
        Seq::empty()
    } else {
        let rest = rules_of_from(items, name, i + 1);
        match items[i] {
            ItemV::Rule(r) => if r.head.relation == name {
                seq![r] + rest
            } else {
                rest
            },
            _ => rest,
        }
    }
}

pub open spec fn queries_from(items: Seq<ItemV>, i: int) -> Seq<QueryV>
    decreases items.len() - i,
{
    if i < 0 || i >= items.len() {
        Seq::empty()
    } else {
        let rest = queries_from(items, i + 1);
        match items[i] {
            ItemV::Query(q) => seq![q] + rest,
            _ => rest,
        }
    }
}


pub open spec fn ir_fact_views(v: Seq<IrFact>) -> Seq<IrFactV> {
    Seq::new(v.len(), |i: int| ir_fact_view(v[i]))
}

pub open spec fn ir_rule_views(v: Seq<IrRule>) -> Seq<IrRuleV> {
    Seq::new(v.len(), |i: int| ir_rule_view(v[i]))
}

pub open spec fn lowered_decls(ds: Seq<RelationDeclV>, items: Seq<ItemV>) -> Seq<IrRelationV> {
    Seq::new(ds.len(), |i: int| lower_relation_spec(ds[i], items))
}

/// One relation's IR: its declaration plus every one of its facts and
/// rules, in source order, and no modes yet.
pub open spec fn lower_relation_spec(d: RelationDeclV, items: Seq<ItemV>) -> IrRelationV {
    let facts = facts_of_from(items, d.name, 0);
    let rules = rules_of_from(items, d.name, 0);
    IrRelationV {
        name: d.name,
        signature: d.signature,
        facts: lowered_facts(facts),
        rules: lowered_rules(rules),
        modes: Seq::empty(),
    }
}

pub open spec fn lowered_typedefs(ds: Seq<TypeDefV>) -> Seq<IrTypeDefV> {
    Seq::new(ds.len(), |i: int| lower_typedef_spec(ds[i]))
}

pub open spec fn lowered_facts(fs: Seq<FactV>) -> Seq<IrFactV> {
    Seq::new(fs.len(), |i: int| lower_fact_spec(fs[i]))
}

pub open spec fn lowered_rules(rs: Seq<RuleV>) -> Seq<IrRuleV> {
    Seq::new(rs.len(), |i: int| lower_rule_spec(rs[i]))
}

pub open spec fn lowered_queries(qs: Seq<QueryV>) -> Seq<IrQueryV> {
    Seq::new(qs.len(), |i: int| lower_query_spec(qs[i]))
}

/// What lowering a whole program produces: one lowered type per
/// `TypeDef`, one `IrRelation` per declared relation — even with zero
/// facts or rules — and one lowered query per query, all in source
/// order.
pub open spec fn lower_program_spec(items: Seq<ItemV>) -> IrProgramV {
    let typedefs = typedefs_from(items, 0);
    let decls = decls_from(items, 0);
    let queries = queries_from(items, 0);
    IrProgramV {
        types: lowered_typedefs(typedefs),
        relations: Seq::new(decls.len(), |i: int| lower_relation_spec(decls[i], items)),
        queries: lowered_queries(queries),
    }
}


// ------------------------------------------------------------------
// The lowering context and its executable functions.
// ------------------------------------------------------------------

/// Model of the executable per-scope variable table.
pub open spec fn var_tab_view(v: Vec<(String, VarId)>) -> VarTabV {
    Seq::new(v@.len(), |i: int| (v@[i].0@, v@[i].1.0 as int))
}

/// Lowering context: carries the variable name table of the rule or
/// query scope being lowered.
pub struct IrLowering {
    var_table: Vec<(String, VarId)>,
}

impl IrLowering {
    /// The current variable scope, as a model value.
    pub closed spec fn scope(self) -> VarTabV {
        var_tab_view(self.var_table)
    }

    /// A lowering context with an empty variable scope.
    pub fn new() -> (r: Self)
        ensures
            r.scope() == Seq::<(Seq<char>, int)>::empty(),
    {
        let r = IrLowering { var_table: Vec::new() };
        proof {
            assert(var_tab_view(r.var_table) =~= Seq::<(Seq<char>, int)>::empty());
        }
        r
    }

    /// The next unused variable id of the current scope: the name
    /// table's length.
    fn fresh_var(&self) -> (v: VarId)
        ensures
            v.0 == self.var_table@.len(),
    {
        VarId(self.var_table.len())
    }

    /// The binding of a name in the current scope, if any.
    fn lookup_scope_var(&self, name: &String) -> (r: Option<VarId>)
        ensures
            match r {
                Some(v) => assoc_lookup(var_tab_view(self.var_table), name@) == Some(v.0 as int),
                None => assoc_lookup(var_tab_view(self.var_table), name@) is None,
            },
    {
        let ghost s = var_tab_view(self.var_table);
        let mut i: usize = 0;
        while i < self.var_table.len()
            invariant
                i <= self.var_table.len(),
                s == var_tab_view(self.var_table),
                s.len() == self.var_table.len(),
                forall|j: int| 0 <= j < i ==> (#[trigger] s[j]).0 != name@,
            decreases self.var_table.len() - i,
        {
            if self.var_table[i].0 == *name {
                proof {
                    lemma_assoc_skip(s, i as int, name@);
                }
                return Some(self.var_table[i].1);
            }
            i = i + 1;
        }
        proof {
            lemma_assoc_skip(s, s.len() as int, name@);
            assert(s.subrange(s.len() as int, s.len() as int) =~= Seq::<(Seq<char>, int)>::empty());
        }
        None
    }

    /// The fixed byte width of a type.
    #[verifier::loop_isolation(false)]
    fn type_size(ty: &Type) -> (r: usize)
        ensures
            r as int == ty_size_spec(ty_view(*ty)),
        decreases ty,
    {
        match ty {
            Type::Named(name) => {
                if str_eq(name.as_str(), "Int") {
                    8
                } else if str_eq(name.as_str(), "String") {
                    16
                } else {
                    8
                }
            },
            Type::List(_) => 16,
            Type::Option(_) => 16,
            Type::Product(ts) => {
                let ghost tsv = tys_view(ts@);
                let mut size: usize = 0;
                let mut i: usize = 0;
                while i < ts.len()
                    invariant
                        i <= ts.len(),
                        size as int == tys_size_spec(tsv.take(i as int)),
                    decreases ts.len() - i,
                {
                    proof {
                        assert(decreases_to!(*ty => *ts));
                        assert(decreases_to!(*ts => ts[i as int]));
                        assert(decreases_to!(*ty => ts[i as int]));
                    }
                    let elem = Self::type_size(&ts[i]);
                    proof {
                        assert(tsv.take(i as int + 1).drop_last() =~= tsv.take(i as int));
                        assert(tsv.take(i as int + 1).last() == ty_view(ts@[i as int]));
                    }
                    size = size.saturating_add(elem);
                    i = i + 1;
                }
                proof {
                    assert(tsv.take(tsv.len() as int) =~= tsv);
                }
                size
            },
        }
    }

    /// Lower one type definition to its concrete layout.
    #[verifier::loop_isolation(false)]
    fn lower_type_def(&self, typedef: &TypeDef) -> (r: IrTypeDef)
        ensures
            ir_typedef_view(r) == lower_typedef_spec(typedef_view(*typedef)),
    {
        let layout = match &typedef.def {
            TypeDefKind::Product { constructor, fields } => {
                let ghost fieldsv = tdk_view(typedef.def)->Product_fields;
                let mut size: usize = 0;
                let mut field_list: Vec<(String, Type)> = Vec::new();
                let mut i: usize = 0;
                while i < fields.len()
                    invariant
                        i <= fields.len(),
                        fieldsv.len() == fields@.len(),
                        forall|j: int| 0 <= j < fieldsv.len() ==> fieldsv[j]
                            == crate::ast::field_view(fields@[j]),
                        field_list@.len() == i,
                        forall|j: int|
                            0 <= j < i ==> (#[trigger] field_list@[j]).0@ == fields@[j].name@
                                && ty_view(field_list@[j].1) == ty_view(fields@[j].ty),
                        size as int == fields_size_spec(fieldsv.take(i as int)),
                    decreases fields.len() - i,
                {
                    let field_size = Self::type_size(&fields[i].ty);
                    proof {
                        assert(fieldsv.take(i as int + 1).drop_last() =~= fieldsv.take(i as int));
                        assert(fieldsv.take(i as int + 1).last() == crate::ast::field_view(
                            fields@[i as int],
                        ));
                    }
                    size = size.saturating_add(field_size);
                    field_list.push((fields[i].name.clone(), fields[i].ty.clone()));
                    i = i + 1;
                }
                proof {
                    assert(fieldsv.take(fieldsv.len() as int) =~= fieldsv);
                }
                let r = TypeLayout::Struct { fields: field_list, size_bytes: size, align_bytes: 8 };
                proof {
                    assert(type_layout_view(r)->Struct_fields =~= Seq::new(
                        fieldsv.len(),
                        |i: int| (fieldsv[i].name, fieldsv[i].ty),
                    ));
                }
                r
            },
            TypeDefKind::Sum { variants } => {
                let ghost vsv = tdk_view(typedef.def)->Sum_variants;
                let mut copies: Vec<String> = Vec::new();
                let mut i: usize = 0;
                while i < variants.len()
                    invariant
                        i <= variants.len(),
                        vsv.len() == variants@.len(),
                        forall|j: int| 0 <= j < vsv.len() ==> vsv[j] == variants@[j]@,
                        copies@.len() == i,
                        forall|j: int| 0 <= j < i ==> copies@[j]@ == variants@[j]@,
                    decreases variants.len() - i,
                {
                    copies.push(variants[i].clone());
                    i = i + 1;
                }
                let r = TypeLayout::Enum { variants: copies, tag_size: 8, max_variant_size: 0 };
                proof {
                    assert(type_layout_view(r)->Enum_variants =~= vsv);
                }
                r
            },
        };
        IrTypeDef { name: typedef.name.clone(), layout }
    }

    /// Evaluate a ground arithmetic term, with wrapping semantics and 0
    /// for undefined division.
    fn eval_ground(term: &Term) -> (r: i64)
        ensures
            r == eval_ground_spec(term_view(*term)),
        decreases term,
    {
        match term {
            Term::Int(n, _) => *n,
            Term::BinOp { op, left, right, .. } => {
                let a = Self::eval_ground(left);
                let b = Self::eval_ground(right);
                match op {
                    crate::ast::BinOp::Add => a.wrapping_add(b),
                    crate::ast::BinOp::Sub => a.wrapping_sub(b),
                    crate::ast::BinOp::Mul => a.wrapping_mul(b),
                    crate::ast::BinOp::Div => match a.checked_div(b) {
                        Some(q) => q,
                        None => 0,
                    },
                    crate::ast::BinOp::Mod => match a.checked_rem(b) {
                        Some(q) => q,
                        None => 0,
                    },
                }
            },
            _ => 0,
        }
    }

    /// Lower a term in a fact position to a ground value.
    #[verifier::loop_isolation(false)]
    fn lower_term_to_value(term: &Term) -> (r: IrValue)
        ensures
            ir_value_view(r) == lower_value_spec(term_view(*term)),
        decreases term,
    {
        match term {
            Term::Int(n, _) => IrValue::Int(*n),
            Term::String(s, _) => IrValue::String(s.clone()),
            Term::Construct { constructor, args, .. } => {
                let ghost argsv = terms_view(args@);
                let mut fields: Vec<IrValue> = Vec::new();
                let mut i: usize = 0;
                while i < args.len()
                    invariant
                        i <= args.len(),
                        fields@.len() == i,
                        forall|j: int|
                            0 <= j < i ==> ir_value_view(#[trigger] fields@[j]) == lower_value_spec(
                                argsv[j],
                            ),
                    decreases args.len() - i,
                {
                    proof {
                        assert(decreases_to!(*term => *args));
                        assert(decreases_to!(*args => args[i as int]));
                        assert(decreases_to!(*term => args[i as int]));
                    }
                    fields.push(Self::lower_term_to_value(&args[i]));
                    i = i + 1;
                }
                let r = IrValue::Struct { ty_name: constructor.clone(), fields };
                proof {
                    assert(ir_value_view(r)->Struct_fields =~= lower_value_spec(
                        term_view(*term),
                    )->Struct_fields);
                }
                r
            },
            Term::BinOp { .. } => IrValue::Int(Self::eval_ground(term)),
            Term::Var(_, _) => IrValue::Int(0),
        }
    }

    /// Lower a fact to its ground argument values.
    #[verifier::loop_isolation(false)]
    fn lower_fact(&self, fact: &Fact) -> (r: IrFact)
        ensures
            ir_fact_view(r) == lower_fact_spec(fact_view(*fact)),
    {
        let ghost argsv = terms_view(fact.args@);
        let mut args: Vec<IrValue> = Vec::new();
        let mut i: usize = 0;
        while i < fact.args.len()
            invariant
                i <= fact.args.len(),
                args@.len() == i,
                forall|j: int|
                    0 <= j < i ==> ir_value_view(#[trigger] args@[j]) == lower_value_spec(argsv[j]),
            decreases fact.args.len() - i,
        {
            args.push(Self::lower_term_to_value(&fact.args[i]));
            i = i + 1;
        }
        let r = IrFact { args };
        proof {
            assert(ir_fact_view(r).args =~= lower_fact_spec(fact_view(*fact)).args);
        }
        r
    }

    fn lower_binop(&self, op: crate::ast::BinOp) -> (r: BinOp)
        ensures
            r == lower_binop_spec(op),
    {
        match op {
            crate::ast::BinOp::Add => BinOp::Add,
            crate::ast::BinOp::Sub => BinOp::Sub,
            crate::ast::BinOp::Mul => BinOp::Mul,
            crate::ast::BinOp::Div => BinOp::Div,
            crate::ast::BinOp::Mod => BinOp::Mod,
        }
    }

    fn lower_compare_op(&self, op: crate::ast::CompareOp) -> (r: CompareOp)
        ensures
            r == lower_compare_op_spec(op),
    {
        match op {
            crate::ast::CompareOp::Eq => CompareOp::Eq,
            crate::ast::CompareOp::Ne => CompareOp::Ne,
            crate::ast::CompareOp::Lt => CompareOp::Lt,
            crate::ast::CompareOp::Le => CompareOp::Le,
            crate::ast::CompareOp::Gt => CompareOp::Gt,
            crate::ast::CompareOp::Ge => CompareOp::Ge,
        }
    }

    /// Lower one term inside the current scope, resolving variables
    /// through the scope's name table so that every occurrence of one
    /// source name — also beneath a constructor application — maps to
    /// the same `VarId`.
    #[verifier::loop_isolation(false)]
    fn lower_term(&mut self, term: &Term) -> (r: IrTerm)
        ensures
            ({
                let (t2, tab2) = lower_term_spec(
                    term_view(*term),
                    var_tab_view(old(self).var_table),
                );
                ir_term_view(r) == t2 && var_tab_view(final(self).var_table) == tab2
            }),
        decreases term,
    {
        match term {
            Term::Var(name, _) => {
                match self.lookup_scope_var(name) {
                    Some(id) => IrTerm::Var(id),
                    None => {
                        let ghost tab0 = var_tab_view(self.var_table);
                        let id = self.fresh_var();
                        self.var_table.push((name.clone(), id));
                        proof {
                            assert(var_tab_view(self.var_table) =~= tab0.push(
                                (name@, tab0.len() as int),
                            ));
                        }
                        IrTerm::Var(id)
                    },
                }
            },
            Term::Int(n, _) => IrTerm::Value(IrValue::Int(*n)),
            Term::String(s, _) => IrTerm::Value(IrValue::String(s.clone())),
            Term::Construct { constructor, args, .. } => {
                let ghost tab0 = var_tab_view(self.var_table);
                let ghost argsv = terms_view(args@);
                let mut lowered: Vec<IrTerm> = Vec::new();
                let mut i: usize = 0;
                while i < args.len()
                    invariant
                        i <= args.len(),
                        (ir_terms_view(lowered@), var_tab_view(self.var_table))
                            == lower_terms_spec(argsv.take(i as int), tab0),
                    decreases args.len() - i,
                {
                    proof {
                        assert(decreases_to!(*term => *args));
                        assert(decreases_to!(*args => args[i as int]));
                        assert(decreases_to!(*term => args[i as int]));
                    }
                    let t = self.lower_term(&args[i]);
                    lowered.push(t);
                    proof {
                        assert(argsv.take(i as int + 1).drop_last() =~= argsv.take(i as int));
                        assert(argsv.take(i as int + 1).last() == argsv[i as int]);
                        let (prev, ptab) = lower_terms_spec(argsv.take(i as int), tab0);
                        assert(ir_terms_view(lowered@) =~= prev.push(
                            ir_term_view(lowered@.last()),
                        ));
                    }
                    i = i + 1;
                }
                proof {
                    assert(argsv.take(argsv.len() as int) =~= argsv);
                }
                IrTerm::Construct { constructor: constructor.clone(), args: lowered }
            },
            Term::BinOp { op, left, right, .. } => {
                let l = self.lower_term(left);
                let r2 = self.lower_term(right);
                IrTerm::BinOp { op: self.lower_binop(*op), left: Box::new(l), right: Box::new(r2) }
            },
        }
    }

    /// Lower an atom's arguments left to right in the current scope.
    #[verifier::loop_isolation(false)]
    fn lower_atom(&mut self, atom: &Atom) -> (r: IrAtom)
        ensures
            ({
                let (a2, tab2) = lower_atom_spec(
                    atom_view(*atom),
                    var_tab_view(old(self).var_table),
                );
                ir_atom_view(r) == a2 && var_tab_view(final(self).var_table) == tab2
            }),
    {
        let ghost tab0 = var_tab_view(self.var_table);
        let ghost argsv = terms_view(atom.args@);
        let mut args: Vec<IrTerm> = Vec::new();
        let mut i: usize = 0;
        while i < atom.args.len()
            invariant
                i <= atom.args.len(),
                (ir_terms_view(args@), var_tab_view(self.var_table)) == lower_terms_spec(
                    argsv.take(i as int),
                    tab0,
                ),
            decreases atom.args.len() - i,
        {
            let t = self.lower_term(&atom.args[i]);
            args.push(t);
            proof {
                assert(argsv.take(i as int + 1).drop_last() =~= argsv.take(i as int));
                assert(argsv.take(i as int + 1).last() == argsv[i as int]);
                let (prev, ptab) = lower_terms_spec(argsv.take(i as int), tab0);
                assert(ir_terms_view(args@) =~= prev.push(ir_term_view(args@.last())));
            }
            i = i + 1;
        }
        proof {
            assert(argsv.take(argsv.len() as int) =~= argsv);
        }
        let r = IrAtom { relation: atom.relation.clone(), args };
        r
    }

    /// Lower one goal in the current scope; every call gets the
    /// default mode 0.
    fn lower_goal(&mut self, goal: &Goal) -> (r: IrGoal)
        ensures
            ({
                let (g2, tab2) = lower_goal_spec(
                    goal_view(*goal),
                    var_tab_view(old(self).var_table),
                );
                ir_goal_view(r) == g2 && var_tab_view(final(self).var_table) == tab2
            }),
    {
        match goal {
            Goal::Atom(atom) => {
                let a = self.lower_atom(atom);
                let IrAtom { relation, args } = a;
                IrGoal::Call { relation, mode_index: 0, args }
            },
            Goal::Unify(left, right, _) => {
                let l = self.lower_term(left);
                let r2 = self.lower_term(right);
                IrGoal::Unify { left: l, right: r2 }
            },
            Goal::Compare(op, left, right, _) => {
                let l = self.lower_term(left);
                let r2 = self.lower_term(right);
                IrGoal::Compare { op: self.lower_compare_op(*op), left: l, right: r2 }
            },
        }
    }

    /// Does the rule's body call its own head relation?
    #[verifier::loop_isolation(false)]
    fn rule_is_self_recursive(rule: &Rule) -> (r: bool)
        ensures
            r == rule_self_recursive(rule_view(*rule)),
    {
        let ghost rv = rule_view(*rule);
        let mut i: usize = 0;
        while i < rule.body.len()
            invariant
                i <= rule.body.len(),
                rv == rule_view(*rule),
                rv.body.len() == rule.body@.len(),
                forall|j: int|
                    0 <= j < i ==> !((#[trigger] rv.body[j]) is Atom && rv.body[j]->Atom_0.relation
                        == rv.head.relation),
            decreases rule.body.len() - i,
        {
            match &rule.body[i] {
                Goal::Atom(a) => {
                    if a.relation == rule.head.relation {
                        proof {
                            assert(rv.body[i as int] is Atom);
                            assert(rv.body[i as int]->Atom_0.relation == rv.head.relation);
                        }
                        return true;
                    }
                },
                _ => {},
            }
            i = i + 1;
        }
        false
    }

    /// Lower a rule: a fresh variable scope, the head first, then the
    /// body goals in order; `needs_tabling` is set exactly when the
    /// body calls the rule's own head relation.
    #[verifier::loop_isolation(false)]
    fn lower_rule(&mut self, rule: &Rule) -> (r: IrRule)
        ensures
            ir_rule_view(r) == lower_rule_spec(rule_view(*rule)),
    {
        let needs_tabling = Self::rule_is_self_recursive(rule);
        self.var_table.clear();
        proof {
            assert(var_tab_view(self.var_table) =~= Seq::<(Seq<char>, int)>::empty());
        }
        let head = self.lower_atom(&rule.head);
        let ghost tab1 = var_tab_view(self.var_table);
        let ghost goalsv = goals_view(rule.body@);
        let mut body: Vec<IrGoal> = Vec::new();
        let mut i: usize = 0;
        while i < rule.body.len()
            invariant
                i <= rule.body.len(),
                (ir_goals_view(body@), var_tab_view(self.var_table)) == lower_goals_spec(
                    goalsv.take(i as int),
                    tab1,
                ),
            decreases rule.body.len() - i,
        {
            let g = self.lower_goal(&rule.body[i]);
            body.push(g);
            proof {
                assert(goalsv.take(i as int + 1).drop_last() =~= goalsv.take(i as int));
                assert(goalsv.take(i as int + 1).last() == goalsv[i as int]);
                let (prev, ptab) = lower_goals_spec(goalsv.take(i as int), tab1);
                assert(ir_goals_view(body@) =~= prev.push(ir_goal_view(body@.last())));
            }
            i = i + 1;
        }
        proof {
            assert(goalsv.take(goalsv.len() as int) =~= goalsv);
        }
        IrRule { head, body, needs_tabling }
    }

    /// Lower a query in its own fresh variable scope.
    #[verifier::loop_isolation(false)]
    fn lower_query(&mut self, query: &Query) -> (r: IrQuery)
        ensures
            ir_query_view(r) == lower_query_spec(query_view(*query)),
    {
        self.var_table.clear();
        proof {
            assert(var_tab_view(self.var_table) =~= Seq::<(Seq<char>, int)>::empty());
        }
        let ghost tab1 = var_tab_view(self.var_table);
        let ghost goalsv = goals_view(query.goals@);
        let mut goals: Vec<IrGoal> = Vec::new();
        let mut i: usize = 0;
        while i < query.goals.len()
            invariant
                i <= query.goals.len(),
                (ir_goals_view(goals@), var_tab_view(self.var_table)) == lower_goals_spec(
                    goalsv.take(i as int),
                    tab1,
                ),
            decreases query.goals.len() - i,
        {
            let g = self.lower_goal(&query.goals[i]);
            goals.push(g);
            proof {
                assert(goalsv.take(i as int + 1).drop_last() =~= goalsv.take(i as int));
                assert(goalsv.take(i as int + 1).last() == goalsv[i as int]);
                let (prev, ptab) = lower_goals_spec(goalsv.take(i as int), tab1);
                assert(ir_goals_view(goals@) =~= prev.push(ir_goal_view(goals@.last())));
            }
            i = i + 1;
        }
        proof {
            assert(goalsv.take(goalsv.len() as int) =~= goalsv);
        }
        IrQuery { goals }
    }

    /// Lower the declaration of one relation together with every fact
    /// and rule that belongs to it, in source order.
    #[verifier::loop_isolation(false)]
    fn lower_relation(&mut self, decl: &RelationDecl, program: &Program) -> (r: IrRelation)
        ensures
            ir_relation_view(r) == lower_relation_spec(
                reldecl_view(*decl),
                program_view(*program),
            ),
    {
        let ghost itemsv = program_view(*program);
        let ghost namev = decl.name@;
        let mut facts: Vec<IrFact> = Vec::new();
        let mut i: usize = 0;
        while i < program.items.len()
            invariant
                i <= program.items.len(),
                itemsv.len() == program.items@.len(),
                ir_fact_views(facts@) + lowered_facts(facts_of_from(itemsv, namev, i as int))
                    == lowered_facts(facts_of_from(itemsv, namev, 0)),
            decreases program.items.len() - i,
        {
            match &program.items[i] {
                Item::Fact(f) => {
                    if f.relation == decl.name {
                        let ghost before = ir_fact_views(facts@);
                        let ghost rest = facts_of_from(itemsv, namev, i as int + 1);
                        let lowered = self.lower_fact(f);
                        facts.push(lowered);
                        proof {
                            assert(lowered_facts(seq![fact_view(program.items@[i as int]->Fact_0)]
                                + rest) =~= seq![
                                lower_fact_spec(fact_view(program.items@[i as int]->Fact_0)),
                            ] + lowered_facts(rest));
                            assert(ir_fact_views(facts@) =~= before + seq![
                                lower_fact_spec(fact_view(program.items@[i as int]->Fact_0)),
                            ]);
                        }
                    }
                },
                _ => {},
            }
            i = i + 1;
        }
        let mut rules: Vec<IrRule> = Vec::new();
        let mut i: usize = 0;
        while i < program.items.len()
            invariant
                i <= program.items.len(),
                itemsv.len() == program.items@.len(),
                ir_fact_views(facts@) == lowered_facts(facts_of_from(itemsv, namev, 0)),
                ir_rule_views(rules@) + lowered_rules(rules_of_from(itemsv, namev, i as int))
                    == lowered_rules(rules_of_from(itemsv, namev, 0)),
            decreases program.items.len() - i,
        {
            match &program.items[i] {
                Item::Rule(rule) => {
                    if rule.head.relation == decl.name {
                        let ghost before = ir_rule_views(rules@);
                        let ghost rest = rules_of_from(itemsv, namev, i as int + 1);
                        let lowered = self.lower_rule(rule);
                        rules.push(lowered);
                        proof {
                            assert(lowered_rules(seq![rule_view(program.items@[i as int]->Rule_0)]
                                + rest) =~= seq![
                                lower_rule_spec(rule_view(program.items@[i as int]->Rule_0)),
                            ] + lowered_rules(rest));
                            assert(ir_rule_views(rules@) =~= before + seq![
                                lower_rule_spec(rule_view(program.items@[i as int]->Rule_0)),
                            ]);
                        }
                    }
                },
                _ => {},
            }
            i = i + 1;
        }
        proof {
            assert(facts_of_from(itemsv, namev, itemsv.len() as int) =~= Seq::<FactV>::empty());
            assert(lowered_facts(Seq::<FactV>::empty()) =~= Seq::<IrFactV>::empty());
            assert(rules_of_from(itemsv, namev, itemsv.len() as int) =~= Seq::<RuleV>::empty());
            assert(lowered_rules(Seq::<RuleV>::empty()) =~= Seq::<IrRuleV>::empty());
        }
        let r = IrRelation {
            name: decl.name.clone(),
            signature: decl.signature.clone(),
            facts,
            rules,
            modes: Vec::new(),
        };
        proof {
            assert(ir_relation_view(r).facts =~= lowered_facts(facts_of_from(itemsv, namev, 0)));
            assert(ir_relation_view(r).rules =~= lowered_rules(rules_of_from(itemsv, namev, 0)));
            assert(ir_relation_view(r).modes =~= Seq::<IrModeV>::empty());
        }
        r
    }

    /// Lower a checked program.
    ///
    /// Total for every input: it never fails.  The result carries one
    /// lowered type definition per `TypeDef`, one `IrRelation` per
    /// declared relation — even one with no facts or rules — and one
    /// lowered query per query, all in source order.
    #[verifier::loop_isolation(false)]
    pub fn lower(&mut self, program: &Program) -> (r: IrProgram)
        ensures
            ir_program_view(r) == lower_program_spec(program_view(*program)),
    {
        let ghost itemsv = program_view(*program);
        let mut types: Vec<IrTypeDef> = Vec::new();
        let mut i: usize = 0;
        while i < program.items.len()
            invariant
                i <= program.items.len(),
                itemsv.len() == program.items@.len(),
                ir_typedefs_view(types@) + lowered_typedefs(typedefs_from(itemsv, i as int))
                    == lowered_typedefs(typedefs_from(itemsv, 0)),
            decreases program.items.len() - i,
        {
            match &program.items[i] {
                Item::TypeDef(typedef) => {
                    let ghost before = ir_typedefs_view(types@);
                    let ghost rest = typedefs_from(itemsv, i as int + 1);
                    let lowered = self.lower_type_def(typedef);
                    types.push(lowered);
                    proof {
                        assert(lowered_typedefs(seq![typedef_view(
                            program.items@[i as int]->TypeDef_0,
                        )] + rest) =~= seq![
                            lower_typedef_spec(typedef_view(program.items@[i as int]->TypeDef_0)),
                        ] + lowered_typedefs(rest));
                        assert(ir_typedefs_view(types@) =~= before + seq![
                            lower_typedef_spec(typedef_view(program.items@[i as int]->TypeDef_0)),
                        ]);
                    }
                },
                _ => {},
            }
            i = i + 1;
        }
        let mut relations: Vec<IrRelation> = Vec::new();
        let mut i: usize = 0;
        while i < program.items.len()
            invariant
                i <= program.items.len(),
                itemsv.len() == program.items@.len(),
                ir_typedefs_view(types@) == lowered_typedefs(typedefs_from(itemsv, 0)),
                ir_relations_view(relations@) + lowered_decls(
                    decls_from(itemsv, i as int),
                    itemsv,
                ) == lowered_decls(decls_from(itemsv, 0), itemsv),
            decreases program.items.len() - i,
        {
            match &program.items[i] {
                Item::RelationDecl(decl) => {
                    let ghost before = ir_relations_view(relations@);
                    let ghost rest = decls_from(itemsv, i as int + 1);
                    let lowered = self.lower_relation(decl, program);
                    relations.push(lowered);
                    proof {
                        assert(lowered_decls(seq![reldecl_view(
                            program.items@[i as int]->RelationDecl_0,
                        )] + rest, itemsv) =~= seq![
                            lower_relation_spec(
                                reldecl_view(program.items@[i as int]->RelationDecl_0),
                                itemsv,
                            ),
                        ] + lowered_decls(rest, itemsv));
                        assert(ir_relations_view(relations@) =~= before + seq![
                            lower_relation_spec(
                                reldecl_view(program.items@[i as int]->RelationDecl_0),
                                itemsv,
                            ),
                        ]);
                    }
                },
                _ => {},
            }
            i = i + 1;
        }
        let mut queries: Vec<IrQuery> = Vec::new();
        let mut i: usize = 0;
        while i < program.items.len()
            invariant
                i <= program.items.len(),
                itemsv.len() == program.items@.len(),
                ir_typedefs_view(types@) == lowered_typedefs(typedefs_from(itemsv, 0)),
                ir_relations_view(relations@) == lowered_decls(decls_from(itemsv, 0), itemsv),
                ir_queries_view(queries@) + lowered_queries(queries_from(itemsv, i as int))
                    == lowered_queries(queries_from(itemsv, 0)),
            decreases program.items.len() - i,
        {
            match &program.items[i] {
                Item::Query(query) => {
                    let ghost before = ir_queries_view(queries@);
                    let ghost rest = queries_from(itemsv, i as int + 1);
                    let lowered = self.lower_query(query);
                    queries.push(lowered);
                    proof {
                        assert(lowered_queries(seq![query_view(
                            program.items@[i as int]->Query_0,
                        )] + rest) =~= seq![
                            lower_query_spec(query_view(program.items@[i as int]->Query_0)),
                        ] + lowered_queries(rest));
                        assert(ir_queries_view(queries@) =~= before + seq![
                            lower_query_spec(query_view(program.items@[i as int]->Query_0)),
                        ]);
                    }
                },
                _ => {},
            }
            i = i + 1;
        }
        proof {
            assert(typedefs_from(itemsv, itemsv.len() as int) =~= Seq::<TypeDefV>::empty());
            assert(lowered_typedefs(Seq::<TypeDefV>::empty()) =~= Seq::<IrTypeDefV>::empty());
            assert(decls_from(itemsv, itemsv.len() as int) =~= Seq::<RelationDeclV>::empty());
            assert(lowered_decls(Seq::<RelationDeclV>::empty(), itemsv) =~= Seq::<
                IrRelationV,
            >::empty());
            assert(queries_from(itemsv, itemsv.len() as int) =~= Seq::<QueryV>::empty());
            assert(lowered_queries(Seq::<QueryV>::empty()) =~= Seq::<IrQueryV>::empty());
        }
        let r = IrProgram { types, relations, queries };
        proof {
            assert(ir_program_view(r).relations =~= lower_program_spec(itemsv).relations);
        }
        r
    }
}

/// Lower a program through a fresh context.
pub fn lower_to_ir(program: &Program) -> (r: IrProgram)
    ensures
        ir_program_view(r) == lower_program_spec(program_view(*program)),
{
    let mut lowering = IrLowering::new();
    lowering.lower(program)
}


// ------------------------------------------------------------------
// Laws of lowering.
// ------------------------------------------------------------------

/// A lowered rule needs tabling exactly when its body calls its own
/// head relation; every non-self-recursive rule is lowered with
/// `needs_tabling` false.
pub proof fn lemma_tabling_iff_self_recursive(r: RuleV)
    ensures
        lower_rule_spec(r).needs_tabling == rule_self_recursive(r),
{
}

/// Lowering emits exactly one `IrRelation` per declared relation, in
/// declaration order and under the declared name and signature, even
/// for relations with no facts or rules.  Lowering itself is total:
/// `IrLowering::lower` has no precondition and never fails.
pub proof fn lemma_one_relation_per_declaration(items: Seq<ItemV>)
    ensures
        lower_program_spec(items).relations.len() == decls_from(items, 0).len(),
        forall|i: int|
            0 <= i < decls_from(items, 0).len()
                ==> (#[trigger] lower_program_spec(items).relations[i]).name == decls_from(
                items,
                0,
            )[i].name && lower_program_spec(items).relations[i].signature == decls_from(
                items,
                0,
            )[i].signature,
{
}

} // verus!
