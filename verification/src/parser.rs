//! The options the parser runs with.

use vstd::prelude::*;

verus! {

/// What the parser reads: a program, or a method signature.
#[derive(Copy, Clone, Debug)]
pub enum ParserMode {
    Program,
    Prototype,
}

/// How the parser builds the tree.
pub struct ParserOptions<'a> {
    pub emit_file_vars_as_literals: bool,
    pub emit_lambda: bool,
    pub emit_procarg0: bool,
    pub declare_env: &'a [&'a str],
    pub mode: ParserMode,
}

impl<'a> ParserOptions<'a> {
    /// The options for parsing a program.
    pub fn defaults() -> (r: Self)
        ensures
            !r.emit_file_vars_as_literals,
            r.emit_lambda,
            r.emit_procarg0,
            r.declare_env@.len() == 0,
            r.mode is Program,
    {
        let env: &[&str] = &[];
        assert(env@ =~= Seq::<&str>::empty());
        ParserOptions {
            emit_file_vars_as_literals: false,
            emit_lambda: true,
            emit_procarg0: true,
            declare_env: env,
            mode: ParserMode::Program,
        }
    }
}

} // verus!
