//! What the checker keeps of a call's block.

use std::rc::Rc;
use vstd::prelude::*;
use crate::ast::{Loc, Node};

verus! {

/// The block of a call: a value passed with `&`, or a literal block with
/// its arguments and body.
pub enum BlockArg {
    Pass { loc: Loc, node: Rc<Node> },
    Literal { loc: Loc, args: Option<Rc<Node>>, body: Option<Rc<Node>> },
}

impl BlockArg {
    /// Where the block is written.
    pub fn loc(&self) -> (r: &Loc)
        ensures
            *r == match *self {
                BlockArg::Pass { loc, .. } => loc,
                BlockArg::Literal { loc, .. } => loc,
            },
    {
        match self {
            BlockArg::Pass { loc, .. } => loc,
            BlockArg::Literal { loc, .. } => loc,
        }
    }
}

} // verus!
