//! Type environment and semantic checker.
//!
//! The checker validates a parsed program in two passes: first every type
//! and relation declaration is registered in a [`TypeEnv`], then every
//! fact, rule and query is checked against it.  Each executable function
//! is specified against a spec-level twin over the syntax model, so the
//! exact result — including which error is reported first — is pinned
//! down for every input.
use vstd::prelude::*;

use crate::ast::Atom;
use crate::ast::BinOp;
use crate::ast::Fact;
use crate::ast::FactV;
use crate::ast::FieldV;
use crate::ast::Goal;
use crate::ast::GoalV;
use crate::ast::Item;
use crate::ast::ItemV;
use crate::ast::Program;
use crate::ast::Query;
use crate::ast::QueryV;
use crate::ast::RelationDecl;
use crate::ast::Rule;
use crate::ast::RuleV;
use crate::ast::Term;
use crate::ast::TermV;
use crate::ast::TyV;
use crate::ast::Type;
use crate::ast::TypeDef;
use crate::ast::TypeDefKind;
use crate::ast::TypeDefKindV;
use crate::ast::fact_view;
use crate::ast::goal_view;
use crate::ast::goals_view;
use crate::ast::program_view;
use crate::ast::query_view;
use crate::ast::rule_view;
use crate::ast::tdk_view;
use crate::ast::term_view;
use crate::ast::terms_view;
use crate::ast::termsv_are_ground;
use crate::ast::termv_is_ground;
use crate::ast::ty_view;
use crate::ast::tys_view;
use crate::text::int_seq;
use crate::text::int_render;
use crate::text::str_eq;

verus! {

/// Which operand of a binary operator an error points at.
#[derive(Debug, Clone, Copy, PartialEq, Eq, Structural)]
pub enum OperandSide {
    Left,
    Right,
}

/// Structured checker errors.  Every variant names the offending
/// relation, variable or constructor and, where applicable, carries both
/// the actual and the expected type.
#[derive(Debug)]
pub enum TypeError {
    /// A type name was declared twice.
    DuplicateType { name: String },
    /// A relation name was declared twice.
    DuplicateRelation { name: String },
    /// A constructor or variant name was declared twice.
    DuplicateConstructor { name: String },
    /// A fact, rule or goal refers to an undeclared relation.
    UnknownRelation { name: String },
    /// A term applies an undeclared constructor.
    UnknownConstructor { name: String },
    /// A term uses a variable with no binding in scope.
    UnboundVariable { name: String },
    /// A relation was applied to the wrong number of arguments.
    ArityMismatch { relation: String, expected: usize, actual: usize },
    /// A constructor was applied to the wrong number of arguments.
    ConstructorArityMismatch { constructor: String, expected: usize, actual: usize },
    /// A constructor argument (1-based) has a type other than the
    /// declared parameter type.
    ConstructorArgumentMismatch { constructor: String, arg_index: usize, expected: Type, actual: Type },
    /// An operand of an arithmetic operator is not an `Int`.
    OperandTypeMismatch { op: BinOp, side: OperandSide, expected: Type, actual: Type },
    /// A fact argument (1-based) contains a variable.
    NonGroundFact { relation: String, arg_index: usize },
    /// A fact argument (1-based) has the wrong type.
    FactArgumentMismatch { relation: String, arg_index: usize, expected: Type, actual: Type },
    /// A term has a type other than the one its position requires.
    TypeMismatch { expected: Type, actual: Type },
    /// A variable is used at two incompatible types.
    ConflictingVariableTypes { variable: String, existing: Type, expected: Type },
    /// The two sides of a unification have incompatible types.
    UnifyTypeMismatch { left: Type, right: Type },
    /// A head variable of a rule does not occur in its body.
    UnsafeRule { variable: String, relation: String },
}

/// Model of `TypeError`.
pub enum ErrV {
    DuplicateType { name: Seq<char> },
    DuplicateRelation { name: Seq<char> },
    DuplicateConstructor { name: Seq<char> },
    UnknownRelation { name: Seq<char> },
    UnknownConstructor { name: Seq<char> },
    UnboundVariable { name: Seq<char> },
    ArityMismatch { relation: Seq<char>, expected: int, actual: int },
    ConstructorArityMismatch { constructor: Seq<char>, expected: int, actual: int },
    ConstructorArgumentMismatch { constructor: Seq<char>, arg_index: int, expected: TyV, actual: TyV },
    OperandTypeMismatch { op: BinOp, side: OperandSide, expected: TyV, actual: TyV },
    NonGroundFact { relation: Seq<char>, arg_index: int },
    FactArgumentMismatch { relation: Seq<char>, arg_index: int, expected: TyV, actual: TyV },
    TypeMismatch { expected: TyV, actual: TyV },
    ConflictingVariableTypes { variable: Seq<char>, existing: TyV, expected: TyV },
    UnifyTypeMismatch { left: TyV, right: TyV },
    UnsafeRule { variable: Seq<char>, relation: Seq<char> },
}

pub open spec fn err_view(e: TypeError) -> ErrV {
    match e {
        TypeError::DuplicateType { name } => ErrV::DuplicateType { name: name@ },
        TypeError::DuplicateRelation { name } => ErrV::DuplicateRelation { name: name@ },
        TypeError::DuplicateConstructor { name } => ErrV::DuplicateConstructor { name: name@ },
        TypeError::UnknownRelation { name } => ErrV::UnknownRelation { name: name@ },
        TypeError::UnknownConstructor { name } => ErrV::UnknownConstructor { name: name@ },
        TypeError::UnboundVariable { name } => ErrV::UnboundVariable { name: name@ },
        TypeError::ArityMismatch { relation, expected, actual } => ErrV::ArityMismatch {
            relation: relation@,
            expected: expected as int,
            actual: actual as int,
        },
        TypeError::ConstructorArityMismatch { constructor, expected, actual } => ErrV::ConstructorArityMismatch {
            constructor: constructor@,
            expected: expected as int,
            actual: actual as int,
        },
        TypeError::ConstructorArgumentMismatch { constructor, arg_index, expected, actual } => ErrV::ConstructorArgumentMismatch {
            constructor: constructor@,
            arg_index: arg_index as int,
            expected: ty_view(expected),
            actual: ty_view(actual),
        },
        TypeError::OperandTypeMismatch { op, side, expected, actual } => ErrV::OperandTypeMismatch {
            op,
            side,
            expected: ty_view(expected),
            actual: ty_view(actual),
        },
        TypeError::NonGroundFact { relation, arg_index } => ErrV::NonGroundFact {
            relation: relation@,
            arg_index: arg_index as int,
        },
        TypeError::FactArgumentMismatch { relation, arg_index, expected, actual } => ErrV::FactArgumentMismatch {
            relation: relation@,
            arg_index: arg_index as int,
            expected: ty_view(expected),
            actual: ty_view(actual),
        },
        TypeError::TypeMismatch { expected, actual } => ErrV::TypeMismatch {
            expected: ty_view(expected),
            actual: ty_view(actual),
        },
        TypeError::ConflictingVariableTypes { variable, existing, expected } => ErrV::ConflictingVariableTypes {
            variable: variable@,
            existing: ty_view(existing),
            expected: ty_view(expected),
        },
        TypeError::UnifyTypeMismatch { left, right } => ErrV::UnifyTypeMismatch {
            left: ty_view(left),
            right: ty_view(right),
        },
        TypeError::UnsafeRule { variable, relation } => ErrV::UnsafeRule {
            variable: variable@,
            relation: relation@,
        },
    }
}

// ------------------------------------------------------------------
// Association sequences: the model of every name-keyed table.
// ------------------------------------------------------------------

/// First binding of `k`, scanning from the front.
pub open spec fn assoc_lookup<V>(s: Seq<(Seq<char>, V)>, k: Seq<char>) -> Option<V>
    decreases s.len(),
{
    if s.len() == 0 {
        None
    } else if s[0].0 == k {
        Some(s[0].1)
    } else {
        assoc_lookup(s.subrange(1, s.len() as int), k)
    }
}

pub open spec fn assoc_has<V>(s: Seq<(Seq<char>, V)>, k: Seq<char>) -> bool {
    assoc_lookup(s, k) is Some
}

/// Looking a key up in a table whose first `i` entries do not bind it
/// is the same as looking it up in the rest of the table.
pub proof fn lemma_assoc_skip<V>(s: Seq<(Seq<char>, V)>, i: int, k: Seq<char>)
    requires
        0 <= i <= s.len(),
        forall|j: int| 0 <= j < i ==> (#[trigger] s[j]).0 != k,
    ensures
        assoc_lookup(s, k) == assoc_lookup(s.subrange(i, s.len() as int), k),
    decreases i,
{
    if i == 0 {
        assert(s.subrange(0, s.len() as int) =~= s);
    } else {
        assert(s[0].0 != k);
        let t = s.subrange(1, s.len() as int);
        assert forall|j: int| 0 <= j < i - 1 implies (#[trigger] t[j]).0 != k by {
            assert(t[j] == s[j + 1]);
        }
        lemma_assoc_skip(t, i - 1, k);
        assert(t.subrange(i - 1, t.len() as int) =~= s.subrange(i, s.len() as int));
    }
}

/// A binding appended with a fresh key leaves other lookups unchanged
/// and binds its own key.
pub proof fn lemma_assoc_push<V>(s: Seq<(Seq<char>, V)>, k: Seq<char>, v: V, k2: Seq<char>)
    ensures
        k2 == k && !assoc_has(s, k) ==> assoc_lookup(s.push((k, v)), k2) == Some(v),
        k2 != k ==> assoc_lookup(s.push((k, v)), k2) == assoc_lookup(s, k2),
        assoc_has(s, k2) ==> assoc_lookup(s.push((k, v)), k2) == assoc_lookup(s, k2),
    decreases s.len(),
{
    reveal_with_fuel(assoc_lookup, 3);
    if s.len() > 0 {
        assert(s.push((k, v))[0] == s[0]);
        if s[0].0 != k2 {
            lemma_assoc_push(s.subrange(1, s.len() as int), k, v, k2);
            assert(s.push((k, v)).subrange(1, s.len() as int + 1) =~= s.subrange(1, s.len() as int).push(
                (k, v),
            ));
        }
    } else {
        assert(s.push((k, v)).subrange(1, 1) =~= Seq::<(Seq<char>, V)>::empty());
    }
}

// ------------------------------------------------------------------
// The type environment.
// ------------------------------------------------------------------

/// Holds type definitions, relation signatures and constructor
/// signatures, each as an insertion-ordered table with distinct keys.
#[derive(Debug)]
pub struct TypeEnv {
    /// Type definitions: `Person -> person(name: String, age: Int)`.
    pub types: Vec<(String, TypeDefKind)>,
    /// Relation signatures: `parent -> Person × Person`.
    pub relations: Vec<(String, Type)>,
    /// Constructor signatures: `person -> ((String, Int), Person)`.
    pub constructors: Vec<(String, (Vec<Type>, String))>,
}

/// Model of `TypeEnv`.
pub struct EnvV {
    pub types: Seq<(Seq<char>, TypeDefKindV)>,
    pub relations: Seq<(Seq<char>, TyV)>,
    pub constructors: Seq<(Seq<char>, (Seq<TyV>, Seq<char>))>,
}

pub open spec fn ctor_view(c: (Vec<Type>, String)) -> (Seq<TyV>, Seq<char>) {
    (tys_view(c.0@), c.1@)
}

pub open spec fn env_view(e: TypeEnv) -> EnvV {
    EnvV {
        types: Seq::new(e.types@.len(), |i: int| (e.types@[i].0@, tdk_view(e.types@[i].1))),
        relations: Seq::new(
            e.relations@.len(),
            |i: int| (e.relations@[i].0@, ty_view(e.relations@[i].1)),
        ),
        constructors: Seq::new(
            e.constructors@.len(),
            |i: int| (e.constructors@[i].0@, ctor_view(e.constructors@[i].1)),
        ),
    }
}

/// The constructor table a product definition contributes.
pub open spec fn field_tys(fields: Seq<FieldV>) -> Seq<TyV> {
    Seq::new(fields.len(), |i: int| fields[i].ty)
}

/// Registering the variants of a sum type, in order; fails on the first
/// variant whose name is already taken.
pub open spec fn add_variants_spec(
    ctors: Seq<(Seq<char>, (Seq<TyV>, Seq<char>))>,
    variants: Seq<Seq<char>>,
    result: Seq<char>,
    i: int,
) -> Result<Seq<(Seq<char>, (Seq<TyV>, Seq<char>))>, ErrV>
    decreases variants.len() - i,
{
    if i < 0 || i >= variants.len() {
        Ok(ctors)
    } else if assoc_has(ctors, variants[i]) {
        Err(ErrV::DuplicateConstructor { name: variants[i] })
    } else {
        add_variants_spec(ctors.push((variants[i], (Seq::empty(), result))), variants, result, i + 1)
    }
}

/// What `TypeEnv::add_type` does to the model.
pub open spec fn add_type_spec(e: EnvV, name: Seq<char>, def: TypeDefKindV) -> Result<EnvV, ErrV> {
    if assoc_has(e.types, name) {
        Err(ErrV::DuplicateType { name })
    } else {
        match def {
            TypeDefKindV::Product { constructor, fields } => {
                if assoc_has(e.constructors, constructor) {
                    Err(ErrV::DuplicateConstructor { name: constructor })
                } else {
                    Ok(
                        EnvV {
                            types: e.types.push((name, def)),
                            relations: e.relations,
                            constructors: e.constructors.push(
                                (constructor, (field_tys(fields), name)),
                            ),
                        },
                    )
                }
            },
            TypeDefKindV::Sum { variants } => {
                match add_variants_spec(e.constructors, variants, name, 0) {
                    Err(err) => Err(err),
                    Ok(ctors) => Ok(
                        EnvV { types: e.types.push((name, def)), relations: e.relations, constructors: ctors },
                    ),
                }
            },
        }
    }
}

/// What `TypeEnv::add_relation` does to the model.
pub open spec fn add_relation_spec(e: EnvV, name: Seq<char>, signature: TyV) -> Result<EnvV, ErrV> {
    if assoc_has(e.relations, name) {
        Err(ErrV::DuplicateRelation { name })
    } else {
        Ok(
            EnvV {
                types: e.types,
                relations: e.relations.push((name, signature)),
                constructors: e.constructors,
            },
        )
    }
}

impl TypeEnv {
    /// An environment with no declarations.
    pub fn new() -> (r: Self)
        ensures
            env_view(r).types == Seq::<(Seq<char>, TypeDefKindV)>::empty(),
            env_view(r).relations == Seq::<(Seq<char>, TyV)>::empty(),
            env_view(r).constructors == Seq::<(Seq<char>, (Seq<TyV>, Seq<char>))>::empty(),
            r.types@.len() == 0,
            r.relations@.len() == 0,
            r.constructors@.len() == 0,
    {
        let r = TypeEnv { types: Vec::new(), relations: Vec::new(), constructors: Vec::new() };
        proof {
            assert(env_view(r).types =~= Seq::<(Seq<char>, TypeDefKindV)>::empty());
            assert(env_view(r).relations =~= Seq::<(Seq<char>, TyV)>::empty());
            assert(env_view(r).constructors =~= Seq::<(Seq<char>, (Seq<TyV>, Seq<char>))>::empty());
        }
        r
    }

    /// Is `name` bound in the type table?
    fn has_type(&self, name: &String) -> (r: bool)
        ensures
            r == assoc_has(env_view(*self).types, name@),
    {
        let ghost s = env_view(*self).types;
        let mut i: usize = 0;
        while i < self.types.len()
            invariant
                i <= self.types.len(),
                s == env_view(*self).types,
                s.len() == self.types.len(),
                forall|j: int| 0 <= j < i ==> (#[trigger] s[j]).0 != name@,
            decreases self.types.len() - i,
        {
            if self.types[i].0 == *name {
                proof {
                    lemma_assoc_skip(s, i as int, name@);
                }
                return true;
            }
            i = i + 1;
        }
        proof {
            lemma_assoc_skip(s, s.len() as int, name@);
            assert(s.subrange(s.len() as int, s.len() as int) =~= Seq::<(
                Seq<char>,
                TypeDefKindV,
            )>::empty());
        }
        false
    }

    /// Is `name` bound in the constructor table?
    fn has_constructor(&self, name: &String) -> (r: bool)
        ensures
            r == assoc_has(env_view(*self).constructors, name@),
    {
        let ghost s = env_view(*self).constructors;
        let mut i: usize = 0;
        while i < self.constructors.len()
            invariant
                i <= self.constructors.len(),
                s == env_view(*self).constructors,
                s.len() == self.constructors.len(),
                forall|j: int| 0 <= j < i ==> (#[trigger] s[j]).0 != name@,
            decreases self.constructors.len() - i,
        {
            if self.constructors[i].0 == *name {
                proof {
                    lemma_assoc_skip(s, i as int, name@);
                }
                return true;
            }
            i = i + 1;
        }
        proof {
            lemma_assoc_skip(s, s.len() as int, name@);
            assert(s.subrange(s.len() as int, s.len() as int) =~= Seq::<(
                Seq<char>,
                (Seq<TyV>, Seq<char>),
            )>::empty());
        }
        false
    }

    /// Is `name` bound in the relation table?
    fn has_relation(&self, name: &String) -> (r: bool)
        ensures
            r == assoc_has(env_view(*self).relations, name@),
    {
        let ghost s = env_view(*self).relations;
        let mut i: usize = 0;
        while i < self.relations.len()
            invariant
                i <= self.relations.len(),
                s == env_view(*self).relations,
                s.len() == self.relations.len(),
                forall|j: int| 0 <= j < i ==> (#[trigger] s[j]).0 != name@,
            decreases self.relations.len() - i,
        {
            if self.relations[i].0 == *name {
                proof {
                    lemma_assoc_skip(s, i as int, name@);
                }
                return true;
            }
            i = i + 1;
        }
        proof {
            lemma_assoc_skip(s, s.len() as int, name@);
            assert(s.subrange(s.len() as int, s.len() as int) =~= Seq::<(Seq<char>, TyV)>::empty());
        }
        false
    }

    /// Register a type definition and its constructors.
    ///
    /// Fails with `DuplicateType` when the name is taken, and with
    /// `DuplicateConstructor` when a constructor or variant name is; on
    /// failure the environment is unchanged.
    #[verifier::loop_isolation(false)]
    pub fn add_type(&mut self, name: String, def: TypeDefKind) -> (r: Result<(), TypeError>)
        ensures
            match add_type_spec(env_view(*old(self)), name@, tdk_view(def)) {
                Ok(e2) => r is Ok && env_view(*final(self)) == e2,
                Err(err) => r is Err && err_view(r->Err_0) == err && env_view(*final(self))
                    == env_view(*old(self)),
            },
    {
        let ghost e0 = env_view(*old(self));
        let ghost namev = name@;
        let ghost defv = tdk_view(def);
        if self.has_type(&name) {
            return Err(TypeError::DuplicateType { name });
        }
        match &def {
            TypeDefKind::Product { constructor, fields } => {
                let ghost cv = constructor@;
                let ghost fieldsv = defv->Product_fields;
                if self.has_constructor(constructor) {
                    let c = constructor.clone();
                    return Err(TypeError::DuplicateConstructor { name: c });
                }
                let mut field_types: Vec<Type> = Vec::new();
                let mut i: usize = 0;
                while i < fields.len()
                    invariant
                        i <= fields.len(),
                        field_types@.len() == i,
                        forall|j: int|
                            0 <= j < i ==> ty_view(field_types@[j]) == ty_view(fields@[j].ty),
                    decreases fields.len() - i,
                {
                    field_types.push(fields[i].ty.clone());
                    i = i + 1;
                }
                proof {
                    assert(tys_view(field_types@) =~= field_tys(fieldsv));
                }
                let entry_name = constructor.clone();
                let result_name = name.clone();
                self.constructors.push((entry_name, (field_types, result_name)));
                self.types.push((name, def));
                proof {
                    let e1 = env_view(*self);
                    assert(e1.types =~= e0.types.push((namev, defv)));
                    assert(e1.relations =~= e0.relations);
                    assert(e1.constructors =~= e0.constructors.push(
                        (cv, (field_tys(fieldsv), namev)),
                    ));
                }
                Ok(())
            },
            TypeDefKind::Sum { variants } => {
                let ghost vs = defv->Sum_variants;
                let n0 = self.constructors.len();
                let mut i: usize = 0;
                while i < variants.len()
                    invariant
                        i <= variants.len(),
                        vs.len() == variants@.len(),
                        forall|j: int| 0 <= j < vs.len() ==> vs[j] == variants@[j]@,
                        self.types == old(self).types,
                        self.relations == old(self).relations,
                        self.constructors@.len() == n0 + i,
                        n0 == old(self).constructors@.len(),
                        env_view(*self).constructors.subrange(0, n0 as int) =~= e0.constructors,
                        add_variants_spec(e0.constructors, vs, namev, 0) == add_variants_spec(
                            env_view(*self).constructors,
                            vs,
                            namev,
                            i as int,
                        ),
                    decreases variants.len() - i,
                {
                    let ghost cur = env_view(*self).constructors;
                    if self.has_constructor(&variants[i]) {
                        let v = variants[i].clone();
                        // roll back the variants registered so far
                        self.constructors.truncate(n0);
                        proof {
                            assert(env_view(*self).constructors =~= cur.subrange(0, n0 as int));
                            assert(env_view(*self) =~~= e0);
                        }
                        return Err(TypeError::DuplicateConstructor { name: v });
                    }
                    let vname = variants[i].clone();
                    let empty_params: Vec<Type> = Vec::new();
                    let result_name = name.clone();
                    self.constructors.push((vname, (empty_params, result_name)));
                    proof {
                        assert(tys_view(Seq::<Type>::empty()) =~= Seq::<TyV>::empty());
                        assert(env_view(*self).constructors =~= cur.push(
                            (vs[i as int], (Seq::<TyV>::empty(), namev)),
                        ));
                        assert(env_view(*self).constructors.subrange(0, n0 as int) =~= cur.subrange(
                            0,
                            n0 as int,
                        ));
                    }
                    i = i + 1;
                }
                self.types.push((name, def));
                proof {
                    let e1 = env_view(*self);
                    assert(e1.types =~= e0.types.push((namev, defv)));
                    assert(e1.relations =~= e0.relations);
                }
                Ok(())
            },
        }
    }

    /// Register a relation signature.
    ///
    /// Fails with `DuplicateRelation` when the name is taken; on failure
    /// the environment is unchanged.
    pub fn add_relation(&mut self, name: String, signature: Type) -> (r: Result<(), TypeError>)
        ensures
            match add_relation_spec(env_view(*old(self)), name@, ty_view(signature)) {
                Ok(e2) => r is Ok && env_view(*final(self)) == e2,
                Err(err) => r is Err && err_view(r->Err_0) == err && env_view(*final(self))
                    == env_view(*old(self)),
            },
    {
        let ghost e0 = env_view(*old(self));
        if self.has_relation(&name) {
            return Err(TypeError::DuplicateRelation { name });
        }
        self.relations.push((name, signature));
        proof {
            let e1 = env_view(*self);
            assert(e1.types =~= e0.types);
            assert(e1.relations =~= e0.relations.push((name@, ty_view(signature))));
            assert(e1.constructors =~= e0.constructors);
        }
        Ok(())
    }

    /// The declared signature of a relation, if any.
    pub fn get_relation_signature(&self, name: &str) -> (r: Option<&Type>)
        ensures
            match r {
                Some(t) => assoc_lookup(env_view(*self).relations, name@) == Some(ty_view(*t)),
                None => assoc_lookup(env_view(*self).relations, name@) is None,
            },
    {
        let ghost s = env_view(*self).relations;
        let mut i: usize = 0;
        while i < self.relations.len()
            invariant
                i <= self.relations.len(),
                s == env_view(*self).relations,
                s.len() == self.relations.len(),
                forall|j: int| 0 <= j < i ==> (#[trigger] s[j]).0 != name@,
            decreases self.relations.len() - i,
        {
            if str_eq(self.relations[i].0.as_str(), name) {
                proof {
                    lemma_assoc_skip(s, i as int, name@);
                }
                return Some(&self.relations[i].1);
            }
            i = i + 1;
        }
        proof {
            lemma_assoc_skip(s, s.len() as int, name@);
            assert(s.subrange(s.len() as int, s.len() as int) =~= Seq::<(Seq<char>, TyV)>::empty());
        }
        None
    }

    /// The parameter types and result type of a constructor, if any.
    pub fn get_constructor_info(&self, name: &str) -> (r: Option<&(Vec<Type>, String)>)
        ensures
            match r {
                Some(c) => assoc_lookup(env_view(*self).constructors, name@) == Some(ctor_view(*c)),
                None => assoc_lookup(env_view(*self).constructors, name@) is None,
            },
    {
        let ghost s = env_view(*self).constructors;
        let mut i: usize = 0;
        while i < self.constructors.len()
            invariant
                i <= self.constructors.len(),
                s == env_view(*self).constructors,
                s.len() == self.constructors.len(),
                forall|j: int| 0 <= j < i ==> (#[trigger] s[j]).0 != name@,
            decreases self.constructors.len() - i,
        {
            if str_eq(self.constructors[i].0.as_str(), name) {
                proof {
                    lemma_assoc_skip(s, i as int, name@);
                }
                return Some(&self.constructors[i].1);
            }
            i = i + 1;
        }
        proof {
            lemma_assoc_skip(s, s.len() as int, name@);
            assert(s.subrange(s.len() as int, s.len() as int) =~= Seq::<(
                Seq<char>,
                (Seq<TyV>, Seq<char>),
            )>::empty());
        }
        None
    }
}


// ------------------------------------------------------------------
// Spec twins of the checker: the mathematical definition of checking.
// ------------------------------------------------------------------

/// Variable type environments, as association sequences.
pub type VenvV = Seq<(Seq<char>, TyV)>;

pub open spec fn int_ty() -> TyV {
    TyV::Named("Int"@)
}

pub open spec fn string_ty() -> TyV {
    TyV::Named("String"@)
}

/// The flattened argument types of a relation signature: a product is
/// its components, any other signature is a single argument.
pub open spec fn flatten_sig(sig: TyV) -> Seq<TyV> {
    match sig {
        TyV::ProductOf(ts) => ts,
        _ => seq![sig],
    }
}

pub open spec fn rel_arg_types_spec(env: EnvV, name: Seq<char>) -> Result<Seq<TyV>, ErrV> {
    match assoc_lookup(env.relations, name) {
        None => Err(ErrV::UnknownRelation { name }),
        Some(sig) => Ok(flatten_sig(sig)),
    }
}

/// Bottom-up type inference.  Fails on unbound variables, unknown or
/// misapplied constructors, and non-`Int` operands of arithmetic.
pub open spec fn infer_spec(env: EnvV, venv: VenvV, t: TermV) -> Result<TyV, ErrV>
    decreases t, 0int,
{
    match t {
        TermV::Var(n) => match assoc_lookup(venv, n) {
            Some(ty) => Ok(ty),
            None => Err(ErrV::UnboundVariable { name: n }),
        },
        TermV::Int(_) => Ok(int_ty()),
        TermV::Str(_) => Ok(string_ty()),
        TermV::Construct { constructor, args } => match assoc_lookup(env.constructors, constructor) {
            None => Err(ErrV::UnknownConstructor { name: constructor }),
            Some(info) => if args.len() != info.0.len() {
                Err(
                    ErrV::ConstructorArityMismatch {
                        constructor,
                        expected: info.0.len() as int,
                        actual: args.len() as int,
                    },
                )
            } else {
                match infer_args_spec(env, venv, constructor, args, info.0, 0) {
                    Err(e) => Err(e),
                    Ok(u) => Ok(TyV::Named(info.1)),
                }
            },
        },
        TermV::BinOp { op, left, right } => match infer_spec(env, venv, *left) {
            Err(e) => Err(e),
            Ok(lt) => match infer_spec(env, venv, *right) {
                Err(e) => Err(e),
                Ok(rt) => if lt != int_ty() {
                    Err(
                        ErrV::OperandTypeMismatch {
                            op,
                            side: OperandSide::Left,
                            expected: int_ty(),
                            actual: lt,
                        },
                    )
                } else if rt != int_ty() {
                    Err(
                        ErrV::OperandTypeMismatch {
                            op,
                            side: OperandSide::Right,
                            expected: int_ty(),
                            actual: rt,
                        },
                    )
                } else {
                    Ok(int_ty())
                },
            },
        },
    }
}

/// First failure among constructor arguments checked left to right;
/// a mismatch names the constructor and the 1-based argument.
pub open spec fn infer_args_spec(
    env: EnvV,
    venv: VenvV,
    constructor: Seq<char>,
    args: Seq<TermV>,
    params: Seq<TyV>,
    i: int,
) -> Result<(), ErrV>
    decreases args, args.len() - i,
{
    if i < 0 || i >= args.len() || args.len() != params.len() {
        Ok(())
    } else {
        match infer_spec(env, venv, args[i]) {
            Err(e) => Err(e),
            Ok(ty) => if ty != params[i] {
                Err(
                    ErrV::ConstructorArgumentMismatch {
                        constructor,
                        arg_index: i + 1,
                        expected: params[i],
                        actual: ty,
                    },
                )
            } else {
                infer_args_spec(env, venv, constructor, args, params, i + 1)
            },
        }
    }
}

/// Inference that reports no error: `None` when a variable is unbound
/// or a constructor unknown.  Constructor arguments are not inspected.
pub open spec fn try_infer_spec(env: EnvV, venv: VenvV, t: TermV) -> Option<TyV> {
    match t {
        TermV::Var(n) => assoc_lookup(venv, n),
        TermV::Int(_) => Some(int_ty()),
        TermV::Str(_) => Some(string_ty()),
        TermV::Construct { constructor, .. } => match assoc_lookup(env.constructors, constructor) {
            Some(info) => Some(TyV::Named(info.1)),
            None => None,
        },
        TermV::BinOp { .. } => Some(int_ty()),
    }
}

/// Checking one term at a position of known type.  A top-level variable
/// is bound on first sight and checked on every later one; any other
/// term is inferred and compared.
pub open spec fn check_term_spec(env: EnvV, venv: VenvV, t: TermV, expected: TyV) -> Result<
    VenvV,
    ErrV,
> {
    match t {
        TermV::Var(n) => match assoc_lookup(venv, n) {
            Some(existing) => if existing == expected {
                Ok(venv)
            } else {
                Err(ErrV::ConflictingVariableTypes { variable: n, existing, expected })
            },
            None => Ok(venv.push((n, expected))),
        },
        _ => match infer_spec(env, venv, t) {
            Err(e) => Err(e),
            Ok(actual) => if actual == expected {
                Ok(venv)
            } else {
                Err(ErrV::TypeMismatch { expected, actual })
            },
        },
    }
}

pub open spec fn check_terms_spec(
    env: EnvV,
    venv: VenvV,
    args: Seq<TermV>,
    expected: Seq<TyV>,
    i: int,
) -> Result<VenvV, ErrV>
    decreases args.len() - i,
{
    if i < 0 || i >= args.len() || args.len() != expected.len() {
        Ok(venv)
    } else {
        match check_term_spec(env, venv, args[i], expected[i]) {
            Err(e) => Err(e),
            Ok(v2) => check_terms_spec(env, v2, args, expected, i + 1),
        }
    }
}

/// Walking a pattern against an expected type, binding the variables it
/// contains.  Unknown constructors and non-pattern terms are ignored
/// here; other checks report them.
pub open spec fn bind_pattern_spec(env: EnvV, venv: VenvV, t: TermV, expected: TyV) -> Result<
    VenvV,
    ErrV,
>
    decreases t, 0int,
{
    match t {
        TermV::Var(n) => match assoc_lookup(venv, n) {
            Some(existing) => if existing == expected {
                Ok(venv)
            } else {
                Err(ErrV::ConflictingVariableTypes { variable: n, existing, expected })
            },
            None => Ok(venv.push((n, expected))),
        },
        TermV::Construct { constructor, args } => match assoc_lookup(env.constructors, constructor) {
            Some(info) => bind_patterns_spec(env, venv, args, info.0, 0),
            None => Ok(venv),
        },
        _ => Ok(venv),
    }
}

pub open spec fn bind_patterns_spec(
    env: EnvV,
    venv: VenvV,
    args: Seq<TermV>,
    params: Seq<TyV>,
    i: int,
) -> Result<VenvV, ErrV>
    decreases args, args.len() - i,
{
    if i < 0 || i >= args.len() || i >= params.len() {
        Ok(venv)
    } else {
        match bind_pattern_spec(env, venv, args[i], params[i]) {
            Err(e) => Err(e),
            Ok(v2) => bind_patterns_spec(env, v2, args, params, i + 1),
        }
    }
}

/// Checking one goal, reading and extending the variable environment.
pub open spec fn check_goal_spec(env: EnvV, venv: VenvV, g: GoalV) -> Result<VenvV, ErrV> {
    match g {
        GoalV::Atom(a) => match rel_arg_types_spec(env, a.relation) {
            Err(e) => Err(e),
            Ok(expected) => if a.args.len() != expected.len() {
                Err(
                    ErrV::ArityMismatch {
                        relation: a.relation,
                        expected: expected.len() as int,
                        actual: a.args.len() as int,
                    },
                )
            } else {
                check_terms_spec(env, venv, a.args, expected, 0)
            },
        },
        GoalV::Unify(l, r) => {
            let lt = try_infer_spec(env, venv, l);
            let rt = try_infer_spec(env, venv, r);
            match (lt, rt) {
                (Some(a), Some(b)) => if a == b {
                    Ok(venv)
                } else {
                    Err(ErrV::UnifyTypeMismatch { left: a, right: b })
                },
                (Some(a), None) => bind_pattern_spec(env, venv, r, a),
                (None, Some(b)) => bind_pattern_spec(env, venv, l, b),
                (None, None) => Ok(venv),
            }
        },
        GoalV::Compare(op, l, r) => match check_term_spec(env, venv, l, int_ty()) {
            Err(e) => Err(e),
            Ok(v2) => check_term_spec(env, v2, r, int_ty()),
        },
    }
}

pub open spec fn check_goals_spec(env: EnvV, venv: VenvV, goals: Seq<GoalV>, i: int) -> Result<
    VenvV,
    ErrV,
>
    decreases goals.len() - i,
{
    if i < 0 || i >= goals.len() {
        Ok(venv)
    } else {
        match check_goal_spec(env, venv, goals[i]) {
            Err(e) => Err(e),
            Ok(v2) => check_goals_spec(env, v2, goals, i + 1),
        }
    }
}

// ------------------------------------------------------------------
// Variable collection, with order-preserving deduplication.
// ------------------------------------------------------------------

pub open spec fn collect_term_vars(t: TermV, acc: Seq<Seq<char>>) -> Seq<Seq<char>>
    decreases t, 0int,
{
    match t {
        TermV::Var(n) => if acc.contains(n) {
            acc
        } else {
            acc.push(n)
        },
        TermV::Construct { args, .. } => collect_terms_vars(args, acc, 0),
        TermV::BinOp { left, right, .. } => collect_term_vars(
            *right,
            collect_term_vars(*left, acc),
        ),
        _ => acc,
    }
}

pub open spec fn collect_terms_vars(args: Seq<TermV>, acc: Seq<Seq<char>>, i: int) -> Seq<
    Seq<char>,
>
    decreases args, args.len() - i,
{
    if i < 0 || i >= args.len() {
        acc
    } else {
        collect_terms_vars(args, collect_term_vars(args[i], acc), i + 1)
    }
}

pub open spec fn collect_goal_vars(g: GoalV, acc: Seq<Seq<char>>) -> Seq<Seq<char>> {
    match g {
        GoalV::Atom(a) => collect_terms_vars(a.args, acc, 0),
        GoalV::Unify(l, r) => collect_term_vars(r, collect_term_vars(l, acc)),
        GoalV::Compare(op, l, r) => collect_term_vars(r, collect_term_vars(l, acc)),
    }
}

pub open spec fn collect_goals_vars(goals: Seq<GoalV>, acc: Seq<Seq<char>>, i: int) -> Seq<
    Seq<char>,
>
    decreases goals.len() - i,
{
    if i < 0 || i >= goals.len() {
        acc
    } else {
        collect_goals_vars(goals, collect_goal_vars(goals[i], acc), i + 1)
    }
}

// ------------------------------------------------------------------
// Facts, rules, queries, programs.
// ------------------------------------------------------------------

/// Index of the first non-ground argument at or after `i`, if any.
pub open spec fn first_nonground_spec(args: Seq<TermV>, i: int) -> Option<int>
    decreases args.len() - i,
{
    if i < 0 || i >= args.len() {
        None
    } else if !termv_is_ground(args[i]) {
        Some(i)
    } else {
        first_nonground_spec(args, i + 1)
    }
}

/// First type failure among fact arguments, inferred in an empty
/// variable environment.
pub open spec fn check_fact_args_spec(
    env: EnvV,
    relation: Seq<char>,
    args: Seq<TermV>,
    expected: Seq<TyV>,
    i: int,
) -> Result<(), ErrV>
    decreases args.len() - i,
{
    if i < 0 || i >= args.len() || args.len() != expected.len() {
        Ok(())
    } else {
        match infer_spec(env, Seq::empty(), args[i]) {
            Err(e) => Err(e),
            Ok(actual) => if actual != expected[i] {
                Err(
                    ErrV::FactArgumentMismatch {
                        relation,
                        arg_index: i + 1,
                        expected: expected[i],
                        actual,
                    },
                )
            } else {
                check_fact_args_spec(env, relation, args, expected, i + 1)
            },
        }
    }
}

/// What checking a fact returns: unknown relation, then arity, then
/// groundness, then argument types, in that order.
pub open spec fn check_fact_spec(env: EnvV, f: FactV) -> Result<(), ErrV> {
    match rel_arg_types_spec(env, f.relation) {
        Err(e) => Err(e),
        Ok(expected) => if f.args.len() != expected.len() {
            Err(
                ErrV::ArityMismatch {
                    relation: f.relation,
                    expected: expected.len() as int,
                    actual: f.args.len() as int,
                },
            )
        } else {
            match first_nonground_spec(f.args, 0) {
                Some(i) => Err(ErrV::NonGroundFact { relation: f.relation, arg_index: i + 1 }),
                None => check_fact_args_spec(env, f.relation, f.args, expected, 0),
            }
        },
    }
}

/// First head variable at or after `i` that the body does not mention.
pub open spec fn first_unsafe_var(
    head_vars: Seq<Seq<char>>,
    body_vars: Seq<Seq<char>>,
    i: int,
) -> Option<Seq<char>>
    decreases head_vars.len() - i,
{
    if i < 0 || i >= head_vars.len() {
        None
    } else if !body_vars.contains(head_vars[i]) {
        Some(head_vars[i])
    } else {
        first_unsafe_var(head_vars, body_vars, i + 1)
    }
}

/// What checking a rule returns: head relation and arity, then head
/// pattern binding, then each body goal in order, then the safety
/// requirement that every head variable occurs in the body.
pub open spec fn check_rule_spec(env: EnvV, r: RuleV) -> Result<(), ErrV> {
    match rel_arg_types_spec(env, r.head.relation) {
        Err(e) => Err(e),
        Ok(head_types) => if r.head.args.len() != head_types.len() {
            Err(
                ErrV::ArityMismatch {
                    relation: r.head.relation,
                    expected: head_types.len() as int,
                    actual: r.head.args.len() as int,
                },
            )
        } else {
            match bind_patterns_spec(env, Seq::empty(), r.head.args, head_types, 0) {
                Err(e) => Err(e),
                Ok(venv) => match check_goals_spec(env, venv, r.body, 0) {
                    Err(e) => Err(e),
                    Ok(u) => {
                        let head_vars = collect_terms_vars(r.head.args, Seq::empty(), 0);
                        let body_vars = collect_goals_vars(r.body, Seq::empty(), 0);
                        match first_unsafe_var(head_vars, body_vars, 0) {
                            Some(v) => Err(
                                ErrV::UnsafeRule { variable: v, relation: r.head.relation },
                            ),
                            None => Ok(()),
                        }
                    },
                },
            }
        },
    }
}

/// Queries are rule bodies checked in a fresh variable environment,
/// with no safety obligation.
pub open spec fn check_query_spec(env: EnvV, q: QueryV) -> Result<(), ErrV> {
    match check_goals_spec(env, Seq::empty(), q.goals, 0) {
        Err(e) => Err(e),
        Ok(u) => Ok(()),
    }
}

/// Pass one: register declarations in order.  Returns the environment
/// as built so far together with the first error, if any.
pub open spec fn register_items_spec(env: EnvV, items: Seq<ItemV>, i: int) -> (EnvV, Option<ErrV>)
    decreases items.len() - i,
{
    if i < 0 || i >= items.len() {
        (env, None)
    } else {
        let step = match items[i] {
            ItemV::TypeDef(d) => add_type_spec(env, d.name, d.def),
            ItemV::RelationDecl(d) => add_relation_spec(env, d.name, d.signature),
            _ => Ok(env),
        };
        match step {
            Err(e) => (env, Some(e)),
            Ok(e2) => register_items_spec(e2, items, i + 1),
        }
    }
}

/// Pass two: check facts, rules and queries in source order.
pub open spec fn check_items_spec(env: EnvV, items: Seq<ItemV>, i: int) -> Result<(), ErrV>
    decreases items.len() - i,
{
    if i < 0 || i >= items.len() {
        Ok(())
    } else {
        let step = match items[i] {
            ItemV::Fact(f) => check_fact_spec(env, f),
            ItemV::Rule(r) => check_rule_spec(env, r),
            ItemV::Query(q) => check_query_spec(env, q),
            _ => Ok(()),
        };
        match step {
            Err(e) => Err(e),
            Ok(u) => check_items_spec(env, items, i + 1),
        }
    }
}

/// What checking a whole program does: the environment it builds and
/// the first error of either pass.
pub open spec fn check_program_spec(env0: EnvV, items: Seq<ItemV>) -> (EnvV, Result<(), ErrV>) {
    let reg = register_items_spec(env0, items, 0);
    match reg.1 {
        Some(e) => (reg.0, Err(e)),
        None => (reg.0, check_items_spec(reg.0, items, 0)),
    }
}


// ------------------------------------------------------------------
// The checker itself.
// ------------------------------------------------------------------

/// Model of an executable variable environment.
pub open spec fn venv_view(v: Vec<(String, Type)>) -> VenvV {
    Seq::new(v@.len(), |i: int| (v@[i].0@, ty_view(v@[i].1)))
}

/// Look a variable up in an executable variable environment.
fn lookup_var<'a>(var_env: &'a Vec<(String, Type)>, name: &String) -> (r: Option<&'a Type>)
    ensures
        match r {
            Some(t) => assoc_lookup(venv_view(*var_env), name@) == Some(ty_view(*t)),
            None => assoc_lookup(venv_view(*var_env), name@) is None,
        },
{
    let ghost s = venv_view(*var_env);
    let mut i: usize = 0;
    while i < var_env.len()
        invariant
            i <= var_env.len(),
            s == venv_view(*var_env),
            s.len() == var_env.len(),
            forall|j: int| 0 <= j < i ==> (#[trigger] s[j]).0 != name@,
        decreases var_env.len() - i,
    {
        if var_env[i].0 == *name {
            proof {
                lemma_assoc_skip(s, i as int, name@);
            }
            return Some(&var_env[i].1);
        }
        i = i + 1;
    }
    proof {
        lemma_assoc_skip(s, s.len() as int, name@);
        assert(s.subrange(s.len() as int, s.len() as int) =~= Seq::<(Seq<char>, TyV)>::empty());
    }
    None
}

/// Semantic checker: builds the environment from a program and then
/// validates it item by item.
pub struct TypeChecker {
    env: TypeEnv,
}

impl TypeChecker {
    /// The environment as built so far, as a model value.
    pub closed spec fn env_model(self) -> EnvV {
        env_view(self.env)
    }

    /// A checker over an empty environment.
    pub fn new() -> (r: Self)
        ensures
            r.env_model().types == Seq::<(Seq<char>, TypeDefKindV)>::empty(),
            r.env_model().relations == Seq::<(Seq<char>, TyV)>::empty(),
            r.env_model().constructors == Seq::<(Seq<char>, (Seq<TyV>, Seq<char>))>::empty(),
    {
        TypeChecker { env: TypeEnv::new() }
    }

    /// Structural type compatibility: the language has no subtyping or
    /// coercion, so two types are compatible exactly when their models
    /// are equal.
    fn types_compatible(&self, t1: &Type, t2: &Type) -> (r: bool)
        ensures
            r == (ty_view(*t1) == ty_view(*t2)),
    {
        Self::check_types_compatible(t1, t2)
    }

    #[verifier::loop_isolation(false)]
    fn check_types_compatible(t1: &Type, t2: &Type) -> (r: bool)
        ensures
            r == (ty_view(*t1) == ty_view(*t2)),
        decreases t1,
    {
        match (t1, t2) {
            (Type::Named(n1), Type::Named(n2)) => *n1 == *n2,
            (Type::List(a), Type::List(b)) => Self::check_types_compatible(a, b),
            (Type::Option(a), Type::Option(b)) => Self::check_types_compatible(a, b),
            (Type::Product(xs), Type::Product(ys)) => {
                if xs.len() != ys.len() {
                    proof {
                        assert(tys_view(xs@).len() != tys_view(ys@).len());
                    }
                    return false;
                }
                let mut i: usize = 0;
                while i < xs.len()
                    invariant
                        i <= xs.len(),
                        forall|j: int| 0 <= j < i ==> tys_view(xs@)[j] == tys_view(ys@)[j],
                    decreases xs.len() - i,
                {
                    proof {
                        assert(decreases_to!(*t1 => *xs));
                        assert(decreases_to!(*xs => xs[i as int]));
                        assert(decreases_to!(*t1 => xs[i as int]));
                    }
                    if !Self::check_types_compatible(&xs[i], &ys[i]) {
                        proof {
                            assert(tys_view(xs@)[i as int] != tys_view(ys@)[i as int]);
                        }
                        return false;
                    }
                    i = i + 1;
                }
                proof {
                    assert(tys_view(xs@) =~= tys_view(ys@));
                }
                true
            },
            _ => {
                proof {
                    assert(ty_view(*t1) != ty_view(*t2));
                }
                false
            },
        }
    }

    /// Is a term ground?
    fn is_ground(&self, term: &Term) -> (r: bool)
        ensures
            r == termv_is_ground(term_view(*term)),
    {
        Self::check_is_ground(term)
    }

    #[verifier::loop_isolation(false)]
    fn check_is_ground(term: &Term) -> (r: bool)
        ensures
            r == termv_is_ground(term_view(*term)),
        decreases term,
    {
        match term {
            Term::Var(_, _) => false,
            Term::Int(_, _) => true,
            Term::String(_, _) => true,
            Term::Construct { args, .. } => {
                proof {
                    reveal_with_fuel(termv_is_ground, 2);
                    reveal_with_fuel(termsv_are_ground, 2);
                }
                let ghost av = terms_view(args@);
                let mut i: usize = 0;
                while i < args.len()
                    invariant
                        i <= args.len(),
                        av == terms_view(args@),
                        av.len() == args@.len(),
                        forall|j: int| 0 <= j < i ==> termv_is_ground(#[trigger] av[j]),
                    decreases args.len() - i,
                {
                    proof {
                        assert(decreases_to!(*term => *args));
                        assert(decreases_to!(*args => args[i as int]));
                        assert(decreases_to!(*term => args[i as int]));
                    }
                    if !Self::check_is_ground(&args[i]) {
                        proof {
                            assert(av[i as int] == term_view(args@[i as int]));
                            assert(!termv_is_ground(av[i as int]));
                        }
                        return false;
                    }
                    i = i + 1;
                }
                true
            },
            Term::BinOp { left, right, .. } => {
                Self::check_is_ground(left) && Self::check_is_ground(right)
            },
        }
    }
}


impl TypeChecker {
    /// The flattened argument types a relation expects, as owned copies.
    #[verifier::loop_isolation(false)]
    fn get_relation_arg_types(&self, name: &str) -> (r: Result<Vec<Type>, TypeError>)
        ensures
            match rel_arg_types_spec(self.env_model(), name@) {
                Ok(ts) => r is Ok && tys_view(r->Ok_0@) == ts,
                Err(e) => r is Err && err_view(r->Err_0) == e,
            },
    {
        match self.env.get_relation_signature(name) {
            None => Err(TypeError::UnknownRelation { name: name.to_owned() }),
            Some(sig) => match sig {
                Type::Product(ts) => {
                    let mut copies: Vec<Type> = Vec::new();
                    let mut i: usize = 0;
                    while i < ts.len()
                        invariant
                            i <= ts.len(),
                            copies@.len() == i,
                            forall|j: int|
                                0 <= j < i ==> ty_view(copies@[j]) == ty_view(ts@[j]),
                        decreases ts.len() - i,
                    {
                        copies.push(ts[i].clone());
                        i = i + 1;
                    }
                    proof {
                        assert(tys_view(copies@) =~= tys_view(ts@));
                    }
                    Ok(copies)
                },
                other => {
                    let mut single: Vec<Type> = Vec::new();
                    single.push(other.clone());
                    proof {
                        assert(tys_view(single@) =~= seq![ty_view(*other)]);
                    }
                    Ok(single)
                },
            },
        }
    }

    /// Infer the type of a term bottom-up; fails exactly as
    /// [`infer_spec`] describes.
    #[verifier::loop_isolation(false)]
    fn infer_term_type(&self, term: &Term, var_env: &Vec<(String, Type)>) -> (r: Result<
        Type,
        TypeError,
    >)
        ensures
            match infer_spec(self.env_model(), venv_view(*var_env), term_view(*term)) {
                Ok(ty) => r is Ok && ty_view(r->Ok_0) == ty,
                Err(e) => r is Err && err_view(r->Err_0) == e,
            },
        decreases term,
    {
        let ghost envv = self.env_model();
        let ghost venvv = venv_view(*var_env);
        match term {
            Term::Var(name, _) => match lookup_var(var_env, name) {
                Some(t) => Ok(t.clone()),
                None => Err(TypeError::UnboundVariable { name: name.clone() }),
            },
            Term::Int(_, _) => Ok(Type::Named("Int".to_owned())),
            Term::String(_, _) => Ok(Type::Named("String".to_owned())),
            Term::Construct { constructor, args, .. } => {
                match self.env.get_constructor_info(constructor.as_str()) {
                    None => Err(TypeError::UnknownConstructor { name: constructor.clone() }),
                    Some(info) => {
                        let ghost argsv = terms_view(args@);
                        let ghost paramsv = tys_view(info.0@);
                        if args.len() != info.0.len() {
                            return Err(
                                TypeError::ConstructorArityMismatch {
                                    constructor: constructor.clone(),
                                    expected: info.0.len(),
                                    actual: args.len(),
                                },
                            );
                        }
                        let mut i: usize = 0;
                        while i < args.len()
                            invariant
                                i <= args.len(),
                                infer_args_spec(envv, venvv, constructor@, argsv, paramsv, 0)
                                    == infer_args_spec(
                                    envv,
                                    venvv,
                                    constructor@,
                                    argsv,
                                    paramsv,
                                    i as int,
                                ),
                            decreases args.len() - i,
                        {
                            proof {
                                assert(decreases_to!(*term => *args));
                                assert(decreases_to!(*args => args[i as int]));
                                assert(decreases_to!(*term => args[i as int]));
                            }
                            match self.infer_term_type(&args[i], var_env) {
                                Err(e) => {
                                    return Err(e);
                                },
                                Ok(actual) => {
                                    if !self.types_compatible(&actual, &info.0[i]) {
                                        let expected = info.0[i].clone();
                                        return Err(
                                            TypeError::ConstructorArgumentMismatch {
                                                constructor: constructor.clone(),
                                                arg_index: i + 1,
                                                expected,
                                                actual,
                                            },
                                        );
                                    }
                                },
                            }
                            i = i + 1;
                        }
                        Ok(Type::Named(info.1.clone()))
                    },
                }
            },
            Term::BinOp { op, left, right, .. } => {
                match self.infer_term_type(left, var_env) {
                    Err(e) => Err(e),
                    Ok(lt) => match self.infer_term_type(right, var_env) {
                        Err(e) => Err(e),
                        Ok(rt) => {
                            let int_type = Type::Named("Int".to_owned());
                            if !self.types_compatible(&lt, &int_type) {
                                Err(
                                    TypeError::OperandTypeMismatch {
                                        op: *op,
                                        side: OperandSide::Left,
                                        expected: int_type,
                                        actual: lt,
                                    },
                                )
                            } else if !self.types_compatible(&rt, &int_type) {
                                Err(
                                    TypeError::OperandTypeMismatch {
                                        op: *op,
                                        side: OperandSide::Right,
                                        expected: int_type,
                                        actual: rt,
                                    },
                                )
                            } else {
                                Ok(int_type)
                            }
                        },
                    },
                }
            },
        }
    }

    /// Infer a term type if enough is known, reporting no error.
    fn try_infer_term_type(&self, term: &Term, var_env: &Vec<(String, Type)>) -> (r: Option<Type>)
        ensures
            match try_infer_spec(self.env_model(), venv_view(*var_env), term_view(*term)) {
                Some(ty) => r is Some && ty_view(r->Some_0) == ty,
                None => r is None,
            },
    {
        match term {
            Term::Var(name, _) => match lookup_var(var_env, name) {
                Some(t) => Some(t.clone()),
                None => None,
            },
            Term::Int(_, _) => Some(Type::Named("Int".to_owned())),
            Term::String(_, _) => Some(Type::Named("String".to_owned())),
            Term::Construct { constructor, .. } => {
                match self.env.get_constructor_info(constructor.as_str()) {
                    Some(info) => Some(Type::Named(info.1.clone())),
                    None => None,
                }
            },
            Term::BinOp { .. } => Some(Type::Named("Int".to_owned())),
        }
    }
}


/// Model of an executable variable-name list.
pub open spec fn vars_view(v: Vec<String>) -> Seq<Seq<char>> {
    Seq::new(v@.len(), |i: int| v@[i]@)
}

/// Does the list contain this name?
fn contains_name(vars: &Vec<String>, name: &String) -> (r: bool)
    ensures
        r == vars_view(*vars).contains(name@),
{
    let ghost s = vars_view(*vars);
    let mut i: usize = 0;
    while i < vars.len()
        invariant
            i <= vars.len(),
            s == vars_view(*vars),
            s.len() == vars.len(),
            forall|j: int| 0 <= j < i ==> s[j] != name@,
        decreases vars.len() - i,
    {
        if vars[i] == *name {
            proof {
                assert(s[i as int] == name@);
            }
            return true;
        }
        i = i + 1;
    }
    proof {
        assert(!s.contains(name@));
    }
    false
}

impl TypeChecker {
    /// Check one term at a position of known type, binding a top-level
    /// variable on first sight.
    fn check_term_against_type(
        &self,
        term: &Term,
        expected_ty: &Type,
        var_env: &mut Vec<(String, Type)>,
    ) -> (r: Result<(), TypeError>)
        ensures
            match check_term_spec(
                self.env_model(),
                venv_view(*old(var_env)),
                term_view(*term),
                ty_view(*expected_ty),
            ) {
                Ok(v2) => r is Ok && venv_view(*final(var_env)) == v2,
                Err(e) => r is Err && err_view(r->Err_0) == e,
            },
    {
        let ghost venv0 = venv_view(*var_env);
        match term {
            Term::Var(name, _) => {
                let existing = lookup_var(var_env, name);
                match existing {
                    Some(existing_ty) => {
                        if self.types_compatible(existing_ty, expected_ty) {
                            Ok(())
                        } else {
                            let existing_copy = existing_ty.clone();
                            Err(
                                TypeError::ConflictingVariableTypes {
                                    variable: name.clone(),
                                    existing: existing_copy,
                                    expected: expected_ty.clone(),
                                },
                            )
                        }
                    },
                    None => {
                        var_env.push((name.clone(), expected_ty.clone()));
                        proof {
                            assert(venv_view(*var_env) =~= venv0.push(
                                (name@, ty_view(*expected_ty)),
                            ));
                        }
                        Ok(())
                    },
                }
            },
            _ => {
                match self.infer_term_type(term, var_env) {
                    Err(e) => Err(e),
                    Ok(actual) => {
                        if self.types_compatible(&actual, expected_ty) {
                            Ok(())
                        } else {
                            Err(
                                TypeError::TypeMismatch {
                                    expected: expected_ty.clone(),
                                    actual,
                                },
                            )
                        }
                    },
                }
            },
        }
    }

    /// Walk a pattern against its expected type and bind the variables
    /// it contains, recursing through known constructors.
    #[verifier::loop_isolation(false)]
    fn collect_var_types(
        &self,
        term: &Term,
        expected_ty: &Type,
        var_env: &mut Vec<(String, Type)>,
    ) -> (r: Result<(), TypeError>)
        ensures
            match bind_pattern_spec(
                self.env_model(),
                venv_view(*old(var_env)),
                term_view(*term),
                ty_view(*expected_ty),
            ) {
                Ok(v2) => r is Ok && venv_view(*final(var_env)) == v2,
                Err(e) => r is Err && err_view(r->Err_0) == e,
            },
        decreases term,
    {
        let ghost envv = self.env_model();
        let ghost venv0 = venv_view(*var_env);
        match term {
            Term::Var(name, _) => {
                let existing = lookup_var(var_env, name);
                match existing {
                    Some(existing_ty) => {
                        if self.types_compatible(existing_ty, expected_ty) {
                            Ok(())
                        } else {
                            let existing_copy = existing_ty.clone();
                            Err(
                                TypeError::ConflictingVariableTypes {
                                    variable: name.clone(),
                                    existing: existing_copy,
                                    expected: expected_ty.clone(),
                                },
                            )
                        }
                    },
                    None => {
                        var_env.push((name.clone(), expected_ty.clone()));
                        proof {
                            assert(venv_view(*var_env) =~= venv0.push(
                                (name@, ty_view(*expected_ty)),
                            ));
                        }
                        Ok(())
                    },
                }
            },
            Term::Construct { constructor, args, .. } => {
                match self.env.get_constructor_info(constructor.as_str()) {
                    Some(info) => {
                        let ghost argsv = terms_view(args@);
                        let ghost paramsv = tys_view(info.0@);
                        let mut i: usize = 0;
                        while i < args.len() && i < info.0.len()
                            invariant
                                i <= args.len(),
                                bind_patterns_spec(envv, venv0, argsv, paramsv, 0)
                                    == bind_patterns_spec(
                                    envv,
                                    venv_view(*var_env),
                                    argsv,
                                    paramsv,
                                    i as int,
                                ),
                            decreases args.len() - i,
                        {
                            proof {
                                assert(decreases_to!(*term => *args));
                                assert(decreases_to!(*args => args[i as int]));
                                assert(decreases_to!(*term => args[i as int]));
                            }
                            match self.collect_var_types(&args[i], &info.0[i], var_env) {
                                Err(e) => {
                                    return Err(e);
                                },
                                Ok(u) => {},
                            }
                            i = i + 1;
                        }
                        Ok(())
                    },
                    None => Ok(()),
                }
            },
            _ => Ok(()),
        }
    }

    /// Check one body goal, reading and extending the variable
    /// environment.
    #[verifier::loop_isolation(false)]
    fn check_goal(&self, goal: &Goal, var_env: &mut Vec<(String, Type)>) -> (r: Result<
        (),
        TypeError,
    >)
        ensures
            match check_goal_spec(self.env_model(), venv_view(*old(var_env)), goal_view(*goal)) {
                Ok(v2) => r is Ok && venv_view(*final(var_env)) == v2,
                Err(e) => r is Err && err_view(r->Err_0) == e,
            },
    {
        let ghost envv = self.env_model();
        let ghost venv0 = venv_view(*var_env);
        match goal {
            Goal::Atom(atom) => {
                match self.get_relation_arg_types(atom.relation.as_str()) {
                    Err(e) => Err(e),
                    Ok(expected_types) => {
                        if atom.args.len() != expected_types.len() {
                            return Err(
                                TypeError::ArityMismatch {
                                    relation: atom.relation.clone(),
                                    expected: expected_types.len(),
                                    actual: atom.args.len(),
                                },
                            );
                        }
                        let ghost argsv = terms_view(atom.args@);
                        let ghost expv = tys_view(expected_types@);
                        let mut i: usize = 0;
                        while i < atom.args.len()
                            invariant
                                i <= atom.args.len(),
                                expected_types@.len() == atom.args@.len(),
                                expv == tys_view(expected_types@),
                                check_terms_spec(envv, venv0, argsv, expv, 0) == check_terms_spec(
                                    envv,
                                    venv_view(*var_env),
                                    argsv,
                                    expv,
                                    i as int,
                                ),
                            decreases atom.args.len() - i,
                        {
                            match self.check_term_against_type(
                                &atom.args[i],
                                &expected_types[i],
                                var_env,
                            ) {
                                Err(e) => {
                                    return Err(e);
                                },
                                Ok(u) => {},
                            }
                            i = i + 1;
                        }
                        Ok(())
                    },
                }
            },
            Goal::Unify(left, right, _) => {
                let left_ty = self.try_infer_term_type(left, var_env);
                let right_ty = self.try_infer_term_type(right, var_env);
                match (left_ty, right_ty) {
                    (Some(lt), Some(rt)) => {
                        if self.types_compatible(&lt, &rt) {
                            Ok(())
                        } else {
                            Err(TypeError::UnifyTypeMismatch { left: lt, right: rt })
                        }
                    },
                    (Some(ty), None) => self.collect_var_types(right, &ty, var_env),
                    (None, Some(ty)) => self.collect_var_types(left, &ty, var_env),
                    (None, None) => Ok(()),
                }
            },
            Goal::Compare(_, left, right, _) => {
                let int_type = Type::Named("Int".to_owned());
                match self.check_term_against_type(left, &int_type, var_env) {
                    Err(e) => Err(e),
                    Ok(u) => self.check_term_against_type(right, &int_type, var_env),
                }
            },
        }
    }

    /// Record every variable of a term, first occurrence first.
    #[verifier::loop_isolation(false)]
    fn collect_vars_in_term(term: &Term, vars: &mut Vec<String>)
        ensures
            vars_view(*final(vars)) == collect_term_vars(term_view(*term), vars_view(*old(vars))),
        decreases term,
    {
        match term {
            Term::Var(name, _) => {
                if !contains_name(vars, name) {
                    let ghost before = vars_view(*vars);
                    vars.push(name.clone());
                    proof {
                        assert(vars_view(*vars) =~= before.push(name@));
                    }
                }
            },
            Term::Construct { args, .. } => {
                let ghost argsv = terms_view(args@);
                let ghost acc0 = vars_view(*vars);
                let mut i: usize = 0;
                while i < args.len()
                    invariant
                        i <= args.len(),
                        collect_terms_vars(argsv, acc0, 0) == collect_terms_vars(
                            argsv,
                            vars_view(*vars),
                            i as int,
                        ),
                    decreases args.len() - i,
                {
                    proof {
                        assert(decreases_to!(*term => *args));
                        assert(decreases_to!(*args => args[i as int]));
                        assert(decreases_to!(*term => args[i as int]));
                    }
                    Self::collect_vars_in_term(&args[i], vars);
                    i = i + 1;
                }
            },
            Term::BinOp { left, right, .. } => {
                Self::collect_vars_in_term(left, vars);
                Self::collect_vars_in_term(right, vars);
            },
            _ => {},
        }
    }

    /// Every variable of a term list, first occurrence first.
    #[verifier::loop_isolation(false)]
    fn collect_vars_in_terms(&self, terms: &Vec<Term>) -> (r: Vec<String>)
        ensures
            vars_view(r) == collect_terms_vars(terms_view(terms@), Seq::empty(), 0),
    {
        let ghost argsv = terms_view(terms@);
        let mut vars: Vec<String> = Vec::new();
        proof {
            assert(vars_view(vars) =~= Seq::<Seq<char>>::empty());
        }
        let mut i: usize = 0;
        while i < terms.len()
            invariant
                i <= terms.len(),
                collect_terms_vars(argsv, Seq::empty(), 0) == collect_terms_vars(
                    argsv,
                    vars_view(vars),
                    i as int,
                ),
            decreases terms.len() - i,
        {
            Self::collect_vars_in_term(&terms[i], &mut vars);
            i = i + 1;
        }
        vars
    }

    /// Every variable of a goal list, first occurrence first.
    #[verifier::loop_isolation(false)]
    fn collect_vars_in_goals(&self, goals: &Vec<Goal>) -> (r: Vec<String>)
        ensures
            vars_view(r) == collect_goals_vars(goals_view(goals@), Seq::empty(), 0),
    {
        let ghost goalsv = goals_view(goals@);
        let mut vars: Vec<String> = Vec::new();
        proof {
            assert(vars_view(vars) =~= Seq::<Seq<char>>::empty());
        }
        let mut i: usize = 0;
        while i < goals.len()
            invariant
                i <= goals.len(),
                collect_goals_vars(goalsv, Seq::empty(), 0) == collect_goals_vars(
                    goalsv,
                    vars_view(vars),
                    i as int,
                ),
            decreases goals.len() - i,
        {
            match &goals[i] {
                Goal::Atom(atom) => {
                    let ghost argsv = terms_view(atom.args@);
                    let ghost acc0 = vars_view(vars);
                    let mut j: usize = 0;
                    while j < atom.args.len()
                        invariant
                            j <= atom.args.len(),
                            collect_terms_vars(argsv, acc0, 0) == collect_terms_vars(
                                argsv,
                                vars_view(vars),
                                j as int,
                            ),
                        decreases atom.args.len() - j,
                    {
                        Self::collect_vars_in_term(&atom.args[j], &mut vars);
                        j = j + 1;
                    }
                },
                Goal::Unify(left, right, _) => {
                    Self::collect_vars_in_term(left, &mut vars);
                    Self::collect_vars_in_term(right, &mut vars);
                },
                Goal::Compare(_, left, right, _) => {
                    Self::collect_vars_in_term(left, &mut vars);
                    Self::collect_vars_in_term(right, &mut vars);
                },
            }
            i = i + 1;
        }
        vars
    }
}


impl TypeChecker {
    /// Check a fact: relation known, arity right, every argument ground
    /// and of the declared type.
    #[verifier::loop_isolation(false)]
    fn check_fact(&self, fact: &Fact) -> (r: Result<(), TypeError>)
        ensures
            match check_fact_spec(self.env_model(), fact_view(*fact)) {
                Ok(u) => r is Ok,
                Err(e) => r is Err && err_view(r->Err_0) == e,
            },
    {
        let ghost envv = self.env_model();
        let ghost argsv = terms_view(fact.args@);
        let expected_types = match self.get_relation_arg_types(fact.relation.as_str()) {
            Err(e) => {
                return Err(e);
            },
            Ok(t) => t,
        };
        if fact.args.len() != expected_types.len() {
            return Err(
                TypeError::ArityMismatch {
                    relation: fact.relation.clone(),
                    expected: expected_types.len(),
                    actual: fact.args.len(),
                },
            );
        }
        let ghost expv = tys_view(expected_types@);
        let mut i: usize = 0;
        while i < fact.args.len()
            invariant
                i <= fact.args.len(),
                first_nonground_spec(argsv, 0) == first_nonground_spec(argsv, i as int),
            decreases fact.args.len() - i,
        {
            if !self.is_ground(&fact.args[i]) {
                return Err(
                    TypeError::NonGroundFact { relation: fact.relation.clone(), arg_index: i + 1 },
                );
            }
            i = i + 1;
        }
        let empty_env: Vec<(String, Type)> = Vec::new();
        proof {
            assert(venv_view(empty_env) =~= Seq::<(Seq<char>, TyV)>::empty());
        }
        let mut i: usize = 0;
        while i < fact.args.len()
            invariant
                i <= fact.args.len(),
                check_fact_args_spec(envv, fact.relation@, argsv, expv, 0) == check_fact_args_spec(
                    envv,
                    fact.relation@,
                    argsv,
                    expv,
                    i as int,
                ),
                venv_view(empty_env) == Seq::<(Seq<char>, TyV)>::empty(),
            decreases fact.args.len() - i,
        {
            match self.infer_term_type(&fact.args[i], &empty_env) {
                Err(e) => {
                    return Err(e);
                },
                Ok(actual) => {
                    if !self.types_compatible(&actual, &expected_types[i]) {
                        let expected = expected_types[i].clone();
                        return Err(
                            TypeError::FactArgumentMismatch {
                                relation: fact.relation.clone(),
                                arg_index: i + 1,
                                expected,
                                actual,
                            },
                        );
                    }
                },
            }
            i = i + 1;
        }
        Ok(())
    }

    /// Check a rule: head relation and arity, head pattern binding,
    /// each body goal in order, then rule safety.
    #[verifier::loop_isolation(false)]
    fn check_rule(&self, rule: &Rule) -> (r: Result<(), TypeError>)
        ensures
            match check_rule_spec(self.env_model(), rule_view(*rule)) {
                Ok(u) => r is Ok,
                Err(e) => r is Err && err_view(r->Err_0) == e,
            },
    {
        let ghost envv = self.env_model();
        let ghost argsv = terms_view(rule.head.args@);
        let ghost goalsv = goals_view(rule.body@);
        let head_types = match self.get_relation_arg_types(rule.head.relation.as_str()) {
            Err(e) => {
                return Err(e);
            },
            Ok(t) => t,
        };
        if rule.head.args.len() != head_types.len() {
            return Err(
                TypeError::ArityMismatch {
                    relation: rule.head.relation.clone(),
                    expected: head_types.len(),
                    actual: rule.head.args.len(),
                },
            );
        }
        let ghost htv = tys_view(head_types@);
        let mut var_env: Vec<(String, Type)> = Vec::new();
        proof {
            assert(venv_view(var_env) =~= Seq::<(Seq<char>, TyV)>::empty());
        }
        let mut i: usize = 0;
        while i < rule.head.args.len()
            invariant
                i <= rule.head.args.len(),
                head_types@.len() == rule.head.args@.len(),
                htv == tys_view(head_types@),
                bind_patterns_spec(envv, Seq::empty(), argsv, htv, 0) == bind_patterns_spec(
                    envv,
                    venv_view(var_env),
                    argsv,
                    htv,
                    i as int,
                ),
            decreases rule.head.args.len() - i,
        {
            match self.collect_var_types(&rule.head.args[i], &head_types[i], &mut var_env) {
                Err(e) => {
                    return Err(e);
                },
                Ok(u) => {},
            }
            i = i + 1;
        }
        let ghost venv_head = venv_view(var_env);
        let mut i: usize = 0;
        while i < rule.body.len()
            invariant
                i <= rule.body.len(),
                check_goals_spec(envv, venv_head, goalsv, 0) == check_goals_spec(
                    envv,
                    venv_view(var_env),
                    goalsv,
                    i as int,
                ),
            decreases rule.body.len() - i,
        {
            match self.check_goal(&rule.body[i], &mut var_env) {
                Err(e) => {
                    return Err(e);
                },
                Ok(u) => {},
            }
            i = i + 1;
        }
        let head_vars = self.collect_vars_in_terms(&rule.head.args);
        let body_vars = self.collect_vars_in_goals(&rule.body);
        let ghost hv = vars_view(head_vars);
        let ghost bv = vars_view(body_vars);
        let mut i: usize = 0;
        while i < head_vars.len()
            invariant
                i <= head_vars.len(),
                first_unsafe_var(hv, bv, 0) == first_unsafe_var(hv, bv, i as int),
            decreases head_vars.len() - i,
        {
            if !contains_name(&body_vars, &head_vars[i]) {
                return Err(
                    TypeError::UnsafeRule {
                        variable: head_vars[i].clone(),
                        relation: rule.head.relation.clone(),
                    },
                );
            }
            i = i + 1;
        }
        Ok(())
    }

    /// Check a query: its goals in order, in a fresh variable
    /// environment, with no safety obligation.
    #[verifier::loop_isolation(false)]
    fn check_query(&self, query: &Query) -> (r: Result<(), TypeError>)
        ensures
            match check_query_spec(self.env_model(), query_view(*query)) {
                Ok(u) => r is Ok,
                Err(e) => r is Err && err_view(r->Err_0) == e,
            },
    {
        let ghost envv = self.env_model();
        let ghost goalsv = goals_view(query.goals@);
        let mut var_env: Vec<(String, Type)> = Vec::new();
        proof {
            assert(venv_view(var_env) =~= Seq::<(Seq<char>, TyV)>::empty());
        }
        let mut i: usize = 0;
        while i < query.goals.len()
            invariant
                i <= query.goals.len(),
                check_goals_spec(envv, Seq::empty(), goalsv, 0) == check_goals_spec(
                    envv,
                    venv_view(var_env),
                    goalsv,
                    i as int,
                ),
            decreases query.goals.len() - i,
        {
            match self.check_goal(&query.goals[i], &mut var_env) {
                Err(e) => {
                    return Err(e);
                },
                Ok(u) => {},
            }
            i = i + 1;
        }
        Ok(())
    }

    /// Check a whole program.
    ///
    /// Pass one registers every type and relation declaration, in
    /// order; pass two checks every fact, rule and query in source
    /// order.  The first error of either pass is returned and stops
    /// that pass; the environment keeps everything registered before
    /// the failure.
    #[verifier::loop_isolation(false)]
    pub fn check_program(&mut self, program: &Program) -> (r: Result<(), TypeError>)
        ensures
            ({
                let cp = check_program_spec(old(self).env_model(), program_view(*program));
                final(self).env_model() == cp.0 && match cp.1 {
                    Ok(u) => r is Ok,
                    Err(e) => r is Err && err_view(r->Err_0) == e,
                }
            }),
    {
        let ghost e0 = self.env_model();
        let ghost itemsv = program_view(*program);
        let mut i: usize = 0;
        while i < program.items.len()
            invariant
                i <= program.items.len(),
                itemsv.len() == program.items@.len(),
                register_items_spec(e0, itemsv, 0) == register_items_spec(
                    self.env_model(),
                    itemsv,
                    i as int,
                ),
            decreases program.items.len() - i,
        {
            match &program.items[i] {
                Item::TypeDef(typedef) => {
                    match self.env.add_type(typedef.name.clone(), typedef.def.clone()) {
                        Err(e) => {
                            return Err(e);
                        },
                        Ok(u) => {},
                    }
                },
                Item::RelationDecl(rel) => {
                    match self.env.add_relation(rel.name.clone(), rel.signature.clone()) {
                        Err(e) => {
                            return Err(e);
                        },
                        Ok(u) => {},
                    }
                },
                _ => {},
            }
            i = i + 1;
        }
        let ghost env1 = self.env_model();
        let mut i: usize = 0;
        while i < program.items.len()
            invariant
                i <= program.items.len(),
                itemsv.len() == program.items@.len(),
                self.env_model() == env1,
                register_items_spec(e0, itemsv, 0) == (env1, None::<ErrV>),
                check_items_spec(env1, itemsv, 0) == check_items_spec(env1, itemsv, i as int),
            decreases program.items.len() - i,
        {
            match &program.items[i] {
                Item::Fact(fact) => {
                    match self.check_fact(fact) {
                        Err(e) => {
                            return Err(e);
                        },
                        Ok(u) => {},
                    }
                },
                Item::Rule(rule) => {
                    match self.check_rule(rule) {
                        Err(e) => {
                            return Err(e);
                        },
                        Ok(u) => {},
                    }
                },
                Item::Query(query) => {
                    match self.check_query(query) {
                        Err(e) => {
                            return Err(e);
                        },
                        Ok(u) => {},
                    }
                },
                _ => {},
            }
            i = i + 1;
        }
        Ok(())
    }
}


// ------------------------------------------------------------------
// Laws of the checker.
// ------------------------------------------------------------------

/// A successful `add_type` binds the new name, and every name bound
/// before stays bound.
proof fn lemma_add_type_names(e: EnvV, name: Seq<char>, def: TypeDefKindV)
    requires
        add_type_spec(e, name, def) is Ok,
    ensures
        assoc_has(add_type_spec(e, name, def)->Ok_0.types, name),
        forall|n: Seq<char>|
            assoc_has(e.types, n) ==> assoc_has(
                #[trigger] add_type_spec(e, name, def)->Ok_0.types,
                n,
            ),
{
    let e2 = add_type_spec(e, name, def)->Ok_0;
    assert(e2.types == e.types.push((name, def)));
    lemma_assoc_push(e.types, name, def, name);
    assert forall|n: Seq<char>| assoc_has(e.types, n) implies assoc_has(
        #[trigger] e2.types,
        n,
    ) by {
        lemma_assoc_push(e.types, name, def, n);
    }
}

/// Registration of the remaining items fails once a type name that a
/// later `TypeDef` re-declares is already bound.
proof fn lemma_dup_type_fails(e: EnvV, items: Seq<ItemV>, i: int, j: int, n: Seq<char>)
    requires
        assoc_has(e.types, n),
        0 <= i <= j < items.len(),
        items[j] is TypeDef,
        items[j]->TypeDef_0.name == n,
    ensures
        register_items_spec(e, items, i).1 is Some,
    decreases j - i,
{
    if i == j {
        assert(add_type_spec(e, items[i]->TypeDef_0.name, items[i]->TypeDef_0.def) is Err);
    } else {
        match items[i] {
            ItemV::TypeDef(d) => {
                match add_type_spec(e, d.name, d.def) {
                    Err(err) => {},
                    Ok(e2) => {
                        lemma_add_type_names(e, d.name, d.def);
                        lemma_dup_type_fails(e2, items, i + 1, j, n);
                    },
                }
            },
            ItemV::RelationDecl(d) => {
                match add_relation_spec(e, d.name, d.signature) {
                    Err(err) => {},
                    Ok(e2) => {
                        lemma_dup_type_fails(e2, items, i + 1, j, n);
                    },
                }
            },
            _ => {
                lemma_dup_type_fails(e, items, i + 1, j, n);
            },
        }
    }
}

/// Declaring the same type name twice always fails registration: the
/// duplicate is caught at or before the second declaration.
pub proof fn lemma_duplicate_type_rejected(e: EnvV, items: Seq<ItemV>, j1: int, j2: int)
    requires
        0 <= j1 < j2 < items.len(),
        items[j1] is TypeDef,
        items[j2] is TypeDef,
        items[j1]->TypeDef_0.name == items[j2]->TypeDef_0.name,
    ensures
        register_items_spec(e, items, 0).1 is Some,
{
    lemma_dup_type_rejected_from(e, items, 0, j1, j2);
}

proof fn lemma_dup_type_rejected_from(e: EnvV, items: Seq<ItemV>, i: int, j1: int, j2: int)
    requires
        0 <= i <= j1 < j2 < items.len(),
        items[j1] is TypeDef,
        items[j2] is TypeDef,
        items[j1]->TypeDef_0.name == items[j2]->TypeDef_0.name,
    ensures
        register_items_spec(e, items, i).1 is Some,
    decreases j1 - i,
{
    if i == j1 {
        let d = items[i]->TypeDef_0;
        match add_type_spec(e, d.name, d.def) {
            Err(err) => {},
            Ok(e2) => {
                lemma_add_type_names(e, d.name, d.def);
                lemma_dup_type_fails(e2, items, i + 1, j2, d.name);
            },
        }
    } else {
        match items[i] {
            ItemV::TypeDef(d) => {
                match add_type_spec(e, d.name, d.def) {
                    Err(err) => {},
                    Ok(e2) => {
                        lemma_dup_type_rejected_from(e2, items, i + 1, j1, j2);
                    },
                }
            },
            ItemV::RelationDecl(d) => {
                match add_relation_spec(e, d.name, d.signature) {
                    Err(err) => {},
                    Ok(e2) => {
                        lemma_dup_type_rejected_from(e2, items, i + 1, j1, j2);
                    },
                }
            },
            _ => {
                lemma_dup_type_rejected_from(e, items, i + 1, j1, j2);
            },
        }
    }
}

/// Registration of the remaining items fails once a relation name that
/// a later declaration re-declares is already bound.
proof fn lemma_dup_relation_fails(e: EnvV, items: Seq<ItemV>, i: int, j: int, n: Seq<char>)
    requires
        assoc_has(e.relations, n),
        0 <= i <= j < items.len(),
        items[j] is RelationDecl,
        items[j]->RelationDecl_0.name == n,
    ensures
        register_items_spec(e, items, i).1 is Some,
    decreases j - i,
{
    if i == j {
    } else {
        match items[i] {
            ItemV::TypeDef(d) => {
                match add_type_spec(e, d.name, d.def) {
                    Err(err) => {},
                    Ok(e2) => {
                        assert(e2.relations == e.relations);
                        lemma_dup_relation_fails(e2, items, i + 1, j, n);
                    },
                }
            },
            ItemV::RelationDecl(d) => {
                match add_relation_spec(e, d.name, d.signature) {
                    Err(err) => {},
                    Ok(e2) => {
                        lemma_assoc_push(e.relations, d.name, d.signature, n);
                        lemma_dup_relation_fails(e2, items, i + 1, j, n);
                    },
                }
            },
            _ => {
                lemma_dup_relation_fails(e, items, i + 1, j, n);
            },
        }
    }
}

/// Declaring the same relation name twice always fails registration.
pub proof fn lemma_duplicate_relation_rejected(e: EnvV, items: Seq<ItemV>, j1: int, j2: int)
    requires
        0 <= j1 < j2 < items.len(),
        items[j1] is RelationDecl,
        items[j2] is RelationDecl,
        items[j1]->RelationDecl_0.name == items[j2]->RelationDecl_0.name,
    ensures
        register_items_spec(e, items, 0).1 is Some,
{
    lemma_dup_relation_rejected_from(e, items, 0, j1, j2);
}

proof fn lemma_dup_relation_rejected_from(e: EnvV, items: Seq<ItemV>, i: int, j1: int, j2: int)
    requires
        0 <= i <= j1 < j2 < items.len(),
        items[j1] is RelationDecl,
        items[j2] is RelationDecl,
        items[j1]->RelationDecl_0.name == items[j2]->RelationDecl_0.name,
    ensures
        register_items_spec(e, items, i).1 is Some,
    decreases j1 - i,
{
    if i == j1 {
        let d = items[i]->RelationDecl_0;
        match add_relation_spec(e, d.name, d.signature) {
            Err(err) => {},
            Ok(e2) => {
                lemma_assoc_push(e.relations, d.name, d.signature, d.name);
                lemma_dup_relation_fails(e2, items, i + 1, j2, d.name);
            },
        }
    } else {
        match items[i] {
            ItemV::TypeDef(d) => {
                match add_type_spec(e, d.name, d.def) {
                    Err(err) => {},
                    Ok(e2) => {
                        lemma_dup_relation_rejected_from(e2, items, i + 1, j1, j2);
                    },
                }
            },
            ItemV::RelationDecl(d) => {
                match add_relation_spec(e, d.name, d.signature) {
                    Err(err) => {},
                    Ok(e2) => {
                        lemma_dup_relation_rejected_from(e2, items, i + 1, j1, j2);
                    },
                }
            },
            _ => {
                lemma_dup_relation_rejected_from(e, items, i + 1, j1, j2);
            },
        }
    }
}

/// If registration succeeds, no two `TypeDef` items and no two
/// `RelationDecl` items share a name: duplicates are never let
/// through, so a reported duplicate always points at a later
/// declaration, never the first one.
pub proof fn lemma_register_ok_names_unique(e: EnvV, items: Seq<ItemV>)
    requires
        register_items_spec(e, items, 0).1 is None,
    ensures
        forall|j1: int, j2: int|
            0 <= j1 < j2 < items.len() && items[j1] is TypeDef && items[j2] is TypeDef
                ==> (#[trigger] items[j1])->TypeDef_0.name != (#[trigger] items[j2])->TypeDef_0.name,
        forall|j1: int, j2: int|
            0 <= j1 < j2 < items.len() && items[j1] is RelationDecl && items[j2] is RelationDecl
                ==> (#[trigger] items[j1])->RelationDecl_0.name
                != (#[trigger] items[j2])->RelationDecl_0.name,
{
    assert forall|j1: int, j2: int|
        0 <= j1 < j2 < items.len() && items[j1] is TypeDef && items[j2] is TypeDef implies (
    #[trigger] items[j1])->TypeDef_0.name != (#[trigger] items[j2])->TypeDef_0.name by {
        if items[j1]->TypeDef_0.name == items[j2]->TypeDef_0.name {
            lemma_duplicate_type_rejected(e, items, j1, j2);
        }
    }
    assert forall|j1: int, j2: int|
        0 <= j1 < j2 < items.len() && items[j1] is RelationDecl && items[j2] is RelationDecl implies (
    #[trigger] items[j1])->RelationDecl_0.name != (#[trigger] items[j2])->RelationDecl_0.name by {
        if items[j1]->RelationDecl_0.name == items[j2]->RelationDecl_0.name {
            lemma_duplicate_relation_rejected(e, items, j1, j2);
        }
    }
}


/// Program-level reading of the duplicate-type law: a program that
/// declares one type name twice never checks.
pub proof fn lemma_duplicate_type_fails_check(e: EnvV, items: Seq<ItemV>, j1: int, j2: int)
    requires
        0 <= j1 < j2 < items.len(),
        items[j1] is TypeDef,
        items[j2] is TypeDef,
        items[j1]->TypeDef_0.name == items[j2]->TypeDef_0.name,
    ensures
        check_program_spec(e, items).1 is Err,
{
    lemma_duplicate_type_rejected(e, items, j1, j2);
}

/// Program-level reading of the duplicate-relation law: a program
/// that declares one relation name twice never checks.
pub proof fn lemma_duplicate_relation_fails_check(e: EnvV, items: Seq<ItemV>, j1: int, j2: int)
    requires
        0 <= j1 < j2 < items.len(),
        items[j1] is RelationDecl,
        items[j2] is RelationDecl,
        items[j1]->RelationDecl_0.name == items[j2]->RelationDecl_0.name,
    ensures
        check_program_spec(e, items).1 is Err,
{
    lemma_duplicate_relation_rejected(e, items, j1, j2);
}

/// Scanning fact arguments finds the first non-ground one whenever
/// one exists.
proof fn lemma_first_nonground_some(args: Seq<TermV>, k: int, i: int)
    requires
        0 <= k <= i < args.len(),
        !termv_is_ground(args[i]),
    ensures
        first_nonground_spec(args, k) is Some,
        ({
            let m = first_nonground_spec(args, k)->Some_0;
            k <= m < args.len() && !termv_is_ground(args[m]) && forall|j: int|
                k <= j < m ==> termv_is_ground(#[trigger] args[j])
        }),
    decreases i - k,
{
    if termv_is_ground(args[k]) {
        lemma_first_nonground_some(args, k + 1, i);
    }
}

/// A fact with a variable anywhere in an argument — recursively
/// through constructors and operators — is rejected as non-ground,
/// whenever its relation is declared with the right arity.  The error
/// names the relation and the 1-based index of the first non-ground
/// argument.
pub proof fn lemma_nonground_fact_rejected(env: EnvV, f: FactV, i: int)
    requires
        rel_arg_types_spec(env, f.relation) is Ok,
        f.args.len() == rel_arg_types_spec(env, f.relation)->Ok_0.len(),
        0 <= i < f.args.len(),
        !termv_is_ground(f.args[i]),
    ensures
        check_fact_spec(env, f) is Err,
        check_fact_spec(env, f)->Err_0 is NonGroundFact,
        check_fact_spec(env, f)->Err_0->NonGroundFact_relation == f.relation,
        ({
            let ix = check_fact_spec(env, f)->Err_0->NonGroundFact_arg_index;
            1 <= ix <= f.args.len() && !termv_is_ground(f.args[ix - 1]) && forall|j: int|
                0 <= j < ix - 1 ==> termv_is_ground(#[trigger] f.args[j])
        }),
{
    lemma_first_nonground_some(f.args, 0, i);
}

/// Scanning head variables finds an unsafe one whenever one exists.
proof fn lemma_first_unsafe_some(hv: Seq<Seq<char>>, bv: Seq<Seq<char>>, k: int, i: int)
    requires
        0 <= k <= i < hv.len(),
        !bv.contains(hv[i]),
    ensures
        first_unsafe_var(hv, bv, k) is Some,
        !bv.contains(first_unsafe_var(hv, bv, k)->Some_0),
        hv.contains(first_unsafe_var(hv, bv, k)->Some_0),
    decreases i - k,
{
    if bv.contains(hv[k]) {
        lemma_first_unsafe_some(hv, bv, k + 1, i);
    } else {
        assert(hv[k] == hv.index(k));
    }
}

/// Scanning head variables finds none when every one occurs in the
/// body.
proof fn lemma_first_unsafe_none(hv: Seq<Seq<char>>, bv: Seq<Seq<char>>, k: int)
    requires
        0 <= k,
        forall|j: int| k <= j < hv.len() ==> bv.contains(#[trigger] hv[j]),
    ensures
        first_unsafe_var(hv, bv, k) is None,
    decreases hv.len() - k,
{
    if k < hv.len() {
        lemma_first_unsafe_none(hv, bv, k + 1);
    }
}

/// The stages of rule checking before the safety check, bundled: head
/// relation declared with the right arity, head pattern binding
/// accepted, and every body goal accepted.
pub open spec fn rule_stages_ok(env: EnvV, r: RuleV) -> bool {
    rel_arg_types_spec(env, r.head.relation) is Ok && r.head.args.len() == rel_arg_types_spec(
        env,
        r.head.relation,
    )->Ok_0.len() && bind_patterns_spec(
        env,
        Seq::empty(),
        r.head.args,
        rel_arg_types_spec(env, r.head.relation)->Ok_0,
        0,
    ) is Ok && check_goals_spec(
        env,
        bind_patterns_spec(
            env,
            Seq::empty(),
            r.head.args,
            rel_arg_types_spec(env, r.head.relation)->Ok_0,
            0,
        )->Ok_0,
        r.body,
        0,
    ) is Ok
}

/// A rule with a head variable that its body never mentions is
/// rejected as unsafe, whenever checking reaches the safety stage.
pub proof fn lemma_unsafe_rule_rejected(env: EnvV, r: RuleV, i: int)
    requires
        rule_stages_ok(env, r),
        0 <= i < collect_terms_vars(r.head.args, Seq::empty(), 0).len(),
        !collect_goals_vars(r.body, Seq::empty(), 0).contains(
            collect_terms_vars(r.head.args, Seq::empty(), 0)[i],
        ),
    ensures
        check_rule_spec(env, r) is Err,
        check_rule_spec(env, r)->Err_0 is UnsafeRule,
        check_rule_spec(env, r)->Err_0->UnsafeRule_relation == r.head.relation,
        collect_terms_vars(r.head.args, Seq::empty(), 0).contains(
            check_rule_spec(env, r)->Err_0->UnsafeRule_variable,
        ),
        !collect_goals_vars(r.body, Seq::empty(), 0).contains(
            check_rule_spec(env, r)->Err_0->UnsafeRule_variable,
        ),
{
    let hv = collect_terms_vars(r.head.args, Seq::empty(), 0);
    let bv = collect_goals_vars(r.body, Seq::empty(), 0);
    lemma_first_unsafe_some(hv, bv, 0, i);
}

/// A rule whose head variables all occur in its body passes checking,
/// whenever checking reaches the safety stage.
pub proof fn lemma_safe_rule_accepted(env: EnvV, r: RuleV)
    requires
        rule_stages_ok(env, r),
        forall|v: Seq<char>|
            collect_terms_vars(r.head.args, Seq::empty(), 0).contains(v)
                ==> collect_goals_vars(r.body, Seq::empty(), 0).contains(v),
    ensures
        check_rule_spec(env, r) is Ok,
{
    let hv = collect_terms_vars(r.head.args, Seq::empty(), 0);
    let bv = collect_goals_vars(r.body, Seq::empty(), 0);
    assert forall|j: int| 0 <= j < hv.len() implies bv.contains(#[trigger] hv[j]) by {
        assert(hv.contains(hv[j]));
    }
    lemma_first_unsafe_none(hv, bv, 0);
}


// ------------------------------------------------------------------
// Rendering terms for diagnostics.
// ------------------------------------------------------------------

/// The printed name of an arithmetic operator.
pub open spec fn op_name(op: BinOp) -> Seq<char> {
    match op {
        BinOp::Add => "Add"@,
        BinOp::Sub => "Sub"@,
        BinOp::Mul => "Mul"@,
        BinOp::Div => "Div"@,
        BinOp::Mod => "Mod"@,
    }
}

/// The text a term renders to: variables and constructors by name,
/// literals by value, operators parenthesized and spelled out.
pub open spec fn render_term(t: TermV) -> Seq<char>
    decreases t,
{
    match t {
        TermV::Var(n) => n,
        TermV::Int(i) => int_seq(i as int),
        TermV::Str(s) => seq!['"'] + s + seq!['"'],
        TermV::Construct { constructor, args } => if args.len() == 0 {
            constructor
        } else {
            constructor + "("@ + render_args(args) + ")"@
        },
        TermV::BinOp { op, left, right } => "("@ + render_term(*left) + " "@ + op_name(op) + " "@
            + render_term(*right) + ")"@,
    }
}

/// Arguments rendered in order, separated by commas.
pub open spec fn render_args(ts: Seq<TermV>) -> Seq<char>
    decreases ts,
{
    if ts.len() == 0 {
        Seq::empty()
    } else if ts.len() == 1 {
        render_term(ts[0])
    } else {
        render_args(ts.drop_last()) + ", "@ + render_term(ts.last())
    }
}

impl TypeChecker {
    /// Render a term for an error message.
    pub fn term_to_string(&self, term: &Term) -> (r: String)
        ensures
            r@ == render_term(term_view(*term)),
    {
        Self::format_term(term)
    }

    /// Render a term: exactly the text [`render_term`] describes.
    #[verifier::loop_isolation(false)]
    pub fn format_term(term: &Term) -> (r: String)
        ensures
            r@ == render_term(term_view(*term)),
        decreases term,
    {
        proof {
            reveal_with_fuel(render_term, 2);
            reveal_with_fuel(render_args, 2);
            reveal_with_fuel(crate::ast::term_view, 2);
            reveal_with_fuel(crate::ast::terms_view, 2);
        }
        match term {
            Term::Var(name, _) => name.clone(),
            Term::Int(n, _) => int_render(*n),
            Term::String(s, _) => {
                let quoted = "\"".to_owned().concat(s.as_str()).concat("\"");
                proof {
                    reveal_strlit("\"");
                    assert(quoted@ =~= seq!['"'] + s@ + seq!['"']);
                }
                quoted
            },
            Term::Construct { constructor, args, .. } => {
                if args.len() == 0 {
                    constructor.clone()
                } else {
                    let ghost argsv = terms_view(args@);
                    let mut out = constructor.clone().concat("(");
                    let mut i: usize = 0;
                    while i < args.len()
                        invariant
                            i <= args.len(),
                            i == 0 ==> out@ == constructor@ + "("@,
                            i >= 1 ==> out@ == constructor@ + "("@ + render_args(
                                argsv.take(i as int),
                            ),
                        decreases args.len() - i,
                    {
                        proof {
                            assert(decreases_to!(*term => *args));
                            assert(decreases_to!(*args => args[i as int]));
                            assert(decreases_to!(*term => args[i as int]));
                        }
                        if i > 0 {
                            out = out.concat(", ");
                        }
                        let rendered = Self::format_term(&args[i]);
                        out = out.concat(rendered.as_str());
                        proof {
                            assert(argsv.take(i as int + 1).drop_last() =~= argsv.take(i as int));
                            assert(argsv.take(i as int + 1).last() == argsv[i as int]);
                            if i == 0 {
                                assert(render_args(argsv.take(1)) == render_term(argsv[0]));
                                assert(out@ =~= constructor@ + "("@ + render_args(argsv.take(1)));
                            } else {
                                assert(out@ =~= constructor@ + "("@ + (render_args(
                                    argsv.take(i as int),
                                ) + ", "@ + render_term(argsv[i as int])));
                            }
                        }
                        i = i + 1;
                    }
                    let r = out.concat(")");
                    proof {
                        assert(argsv.take(argsv.len() as int) =~= argsv);
                        assert(r@ =~= constructor@ + "("@ + render_args(argsv) + ")"@);
                    }
                    r
                }
            },
            Term::BinOp { op, left, right, .. } => {
                let l = Self::format_term(left);
                let r2 = Self::format_term(right);
                let name: &str = match op {
                    BinOp::Add => "Add",
                    BinOp::Sub => "Sub",
                    BinOp::Mul => "Mul",
                    BinOp::Div => "Div",
                    BinOp::Mod => "Mod",
                };
                let out = "(".to_owned().concat(l.as_str()).concat(" ").concat(name).concat(
                    " ",
                ).concat(r2.as_str()).concat(")");
                proof {
                    assert(out@ =~= "("@ + render_term(*term_view(*term)->BinOp_left) + " "@
                        + op_name(*op) + " "@ + render_term(*term_view(*term)->BinOp_right)
                        + ")"@);
                }
                out
            },
        }
    }
}

} // verus!
