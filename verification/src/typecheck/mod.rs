//! Type checking: the types it infers and their unification, the local
//! variables in scope, how a call's arguments are matched against a
//! prototype, and the errors it reports.

pub mod errors;
pub mod types;
pub mod call;
pub mod locals;
pub mod eval;
pub mod unify;
pub mod control;
