//! Semantic core of a compiler for a small Datalog-style logic language:
//! type and relation declarations, ground facts, Horn-clause rules and
//! queries, checked and lowered to an explicit intermediate form, together
//! with the runtime memory primitives (arena, memo table) that compiled
//! queries execute against.
use vstd::prelude::*;

pub mod ast;
pub mod ir;
pub mod text;
pub mod types;
pub mod runtime;
pub mod lexer;
pub mod parser;

use crate::ast::ItemV;
use crate::ast::Program;
use crate::ir::IrProgram;
use crate::ir::ir_program_view;
use crate::ir::lower_program_spec;
use crate::ir::lower_to_ir;
use crate::parser::ParseError;
use crate::parser::parse;
use crate::types::EnvV;
use crate::types::TypeChecker;
use crate::types::TypeError;
use crate::types::check_program_spec;
use crate::types::err_view;

verus! {

/// The environment a compilation unit starts from: no declarations.
pub open spec fn empty_env() -> EnvV {
    EnvV {
        types: Seq::empty(),
        relations: Seq::empty(),
        constructors: Seq::empty(),
    }
}

/// Why a compilation stopped: the parser or the checker said no.
#[derive(Debug)]
pub enum CompileError {
    Parse(ParseError),
    Check(TypeError),
}

/// Parse, check and lower one source text.
///
/// On success the result is the lowering of a program that passed the
/// semantic checker against an empty initial environment; a checker
/// failure reports the first error of checking the parsed program
/// from that same empty environment.
pub fn compile_to_ir(source: &str) -> (r: Result<IrProgram, CompileError>)
    ensures
        r is Ok ==> exists|items: Seq<ItemV>|
            check_program_spec(empty_env(), items).1 is Ok && ir_program_view(r->Ok_0)
                == lower_program_spec(items),
        (r matches Err(CompileError::Check(e)) ==> exists|items: Seq<ItemV>|
            check_program_spec(empty_env(), items).1 is Err && err_view(e) == check_program_spec(
                empty_env(),
                items,
            ).1->Err_0),
{
    let program = match parse(source) {
        Err(e) => {
            return Err(CompileError::Parse(e));
        },
        Ok(p) => p,
    };
    let mut checker = TypeChecker::new();
    match checker.check_program(&program) {
        Err(e) => {
            proof {
                let items = crate::ast::program_view(program);
                assert(check_program_spec(empty_env(), items).1 is Err);
                assert(err_view(e) == check_program_spec(empty_env(), items).1->Err_0);
            }
            return Err(CompileError::Check(e));
        },
        Ok(u) => {},
    }
    let ir = lower_to_ir(&program);
    proof {
        let items = crate::ast::program_view(program);
        assert(checker.env_model() == check_program_spec(empty_env(), items).0);
        assert(check_program_spec(empty_env(), items).1 is Ok);
        assert(ir_program_view(ir) == lower_program_spec(items));
    }
    Ok(ir)
}

} // verus!
