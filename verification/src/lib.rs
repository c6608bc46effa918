//! Core of the Mid Valyrian scripting language: the abstract syntax tree,
//! the lowering from a grammar-produced parse tree into that tree, and a
//! tree-walking evaluator over a single flat variable namespace.

pub mod ast;
pub mod env;
pub mod error;
pub mod interpreter;
pub mod laws;
pub mod parse_tree;
pub mod parser;
pub mod semantics;
pub mod text;

use vstd::prelude::*;
use crate::ast::ValueM;
use crate::error::ValyrianError;
use crate::interpreter::Interpreter;
use crate::parse_tree::ParseNode;
use crate::parser::{parse_program, lower_program_m};
use crate::semantics::{StateM, interp_m};

verus! {

/// Runs a program given as a parse tree: lowers it, then interprets it with
/// the given input lines and execution budget, starting from an empty
/// variable table. On success the whole output stream is returned; the
/// first error raised by either stage aborts the run.
pub fn run_code(tree: &ParseNode, input: Vec<String>, fuel: u64) -> (r: Result<
    String,
    ValyrianError,
>)
    ensures
        ({
            let init = StateM {
                vars: Map::<Seq<char>, ValueM>::empty(),
                output: Seq::<char>::empty(),
                input: input@.map_values(|l: String| l@),
            };
            match lower_program_m(tree@) {
                Err(em) => r is Err && r->Err_0@ == em,
                Ok(prog) => {
                    let (st2, res) = interp_m(fuel as nat, prog, init);
                    match r {
                        Ok(out) => res is Ok && out@ == st2.output,
                        Err(e) => res is Err && e@ == res->Err_0,
                    }
                },
            }
        }),
{
    let program = match parse_program(tree) {
        Ok(p) => p,
        Err(e) => {
            return Err(e);
        },
    };
    let mut interp = Interpreter::new();
    interp.set_input(input);
    match interp.interpret(&program, fuel) {
        Ok(u) => Ok(interp.output().clone()),
        Err(e) => Err(e),
    }
}

} // verus!
