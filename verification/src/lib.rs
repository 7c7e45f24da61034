//! A verified library for the front end of a gradual type checker for Ruby:
//! the syntax tree, the tree builder driven by the parser, annotation
//! stripping and s-expression printing, the object graph of classes and
//! modules, the resolution of type annotations and method definitions, the
//! declarations of the top-level pass, error reporting, and the parts of the
//! checker that hold its types, unify them, track its local variables and
//! match call arguments, and the inflection of constant names into file
//! paths.

pub mod ast;
pub mod text;
pub mod ffi;
pub mod seq_map;
pub mod builder;
pub mod strip;
pub mod slice_util;
pub mod util;
pub mod inflect;
pub mod deferred_cell;
pub mod phase;
pub mod config;
pub mod parser;
pub mod sexp;
pub mod annotate;
pub mod object;
pub mod abstract_type;
pub mod define;
pub mod errors;
pub mod typecheck;
pub mod environment;
pub mod remote;
pub mod resolve;
pub mod top_level;
pub mod pass;
