//! Looking up constant paths in the object graph, from a lexical scope.

use std::rc::Rc;
use vstd::prelude::*;
use crate::ast::{Loc, Node};
use crate::object::{const_valid, grows, scope_modules, scope_root, ConstantEntry, ObjectGraph, Scope};

verus! {

/// Every module of `s` and of the scopes around it is an object of `g`,
/// no stand-in.
pub open spec fn scope_in(g: ObjectGraph, s: Scope) -> bool {
    forall|k: int| 0 <= k < scope_modules(s).len() ==> {
        &&& #[trigger] scope_modules(s)[k] < g@.len()
        &&& !(g@[scope_modules(s)[k] as int] is IClass)
    }
}

/// The first constant `name` seen from one of `mods`, trying them in
/// order.
pub open spec fn const_in_scopes(g: ObjectGraph, mods: Seq<usize>, name: Seq<char>) -> Option<Rc<ConstantEntry>>
    decreases mods.len(),
{
    if mods.len() == 0 {
        None
    } else {
        match g.const_seen(mods[0], name) {
            Some(c) => Some(c),
            None => const_in_scopes(g, mods.drop_first(), name),
        }
    }
}

/// What the constant path `node` names, seen from `scope`: a path with a
/// base names the constant seen from the module the base names, a bare
/// name the first one seen from the scope or one around it, outwards; or
/// the place where the lookup failed and why.
pub open spec fn cpath_lookup(g: ObjectGraph, node: Node, scope: Scope) -> Result<Rc<ConstantEntry>, (Loc, Seq<char>)>
    decreases node, 0int,
{
    match node {
        Node::Const(loc, Some(base), id) => match cbase_lookup(g, *base, scope) {
            Ok(m) => match g.const_seen(m, id.1@) {
                Some(c) => Ok(c),
                None => Err((loc, "No such constant"@)),
            },
            Err(e) => Err(e),
        },
        Node::Const(loc, None, id) => match const_in_scopes(g, scope_modules(scope), id.1@) {
            Some(c) => Ok(c),
            None => Err((loc, "No such constant"@)),
        },
        _ => Err((node.spec_loc(), "Not a static constant path"@)),
    }
}

/// The class or module that the base `node` of a constant path names:
/// the top-level one for `::`, else what the path names, which must be a
/// class or module.
pub open spec fn cbase_lookup(g: ObjectGraph, node: Node, scope: Scope) -> Result<usize, (Loc, Seq<char>)>
    decreases node, 1int,
{
    match node {
        Node::Cbase(_) => Ok(scope_root(scope).module),
        Node::Const(loc, ..) => match cpath_lookup(g, node, scope) {
            Ok(c) => match *c {
                ConstantEntry::Module { value, .. } => Ok(value),
                ConstantEntry::Expression { .. } => Err((loc, "Not a static class/module"@)),
            },
            Err(e) => Err(e),
        },
        _ => Err((node.spec_loc(), "Not a static constant path"@)),
    }
}

/// The scope `r` points at.
pub open spec fn scope_at(r: &Rc<Scope>) -> Scope {
    **r
}

proof fn lemma_root_in_scope(s: Scope)
    ensures
        scope_modules(s).len() > 0,
        scope_modules(s).last() == scope_root(s).module,
    decreases s,
{
    if s.parent is Some {
        let p: Scope = *s.parent->0;
        lemma_root_in_scope(p);
        assert((seq![s.module] + scope_modules(p)).last() == scope_modules(p).last());
    }
}

proof fn lemma_const_in_scopes_valid(g: ObjectGraph, mods: Seq<usize>, name: Seq<char>)
    requires
        g.wf(),
        forall|k: int| 0 <= k < mods.len() ==> #[trigger] mods[k] < g@.len(),
    ensures
        const_in_scopes(g, mods, name) matches Some(c) ==> const_valid(g@, *c),
    decreases mods.len(),
{
    if mods.len() > 0 {
        g.lemma_const_seen_valid(mods[0], name);
        lemma_const_in_scopes_valid(g, mods.drop_first(), name);
    }
}

/// The class or module that the base of a constant path names.
pub fn resolve_cbase(graph: &ObjectGraph, node: &Node, scope: &Rc<Scope>) -> (r: Result<usize, (Loc, &'static str)>)
    requires
        graph.wf(),
        scope_in(*graph, **scope),
    ensures
        match r {
            Ok(m) => cbase_lookup(*graph, *node, **scope) == Ok::<usize, (Loc, Seq<char>)>(m)
                && m < graph@.len() && !(graph@[m as int] is IClass),
            Err((l, msg)) => cbase_lookup(*graph, *node, **scope) == Err::<usize, (Loc, Seq<char>)>((l, msg@)),
        },
    decreases *node, 1int,
{
    match node {
        Node::Cbase(_) => {
            let root = Scope::root(scope);
            let ghost sc: Scope = scope_at(scope);
            proof {
                lemma_root_in_scope(sc);
                let k = scope_modules(sc).len() - 1;
                assert(scope_modules(sc)[k] == root.module);
            }
            Ok(root.module)
        },
        Node::Const(loc, ..) => {
            match resolve_cpath(graph, node, scope) {
                Ok(c) => {
                    match &*c {
                        ConstantEntry::Module { value, .. } => Ok(*value),
                        ConstantEntry::Expression { .. } => Err((loc.clone(), "Not a static class/module")),
                    }
                },
                Err(e) => Err(e),
            }
        },
        _ => Err((node.loc().clone(), "Not a static constant path")),
    }
}

/// What the constant path `node` names, seen from `scope`, or where and
/// why the lookup failed. Constants that are not defined yet are not
/// looked for on disk.
pub fn resolve_cpath(graph: &ObjectGraph, node: &Node, scope: &Rc<Scope>)
    -> (r: Result<Rc<ConstantEntry>, (Loc, &'static str)>)
    requires
        graph.wf(),
        scope_in(*graph, **scope),
    ensures
        match r {
            Ok(c) => cpath_lookup(*graph, *node, **scope) == Ok::<Rc<ConstantEntry>, (Loc, Seq<char>)>(c)
                && const_valid(graph@, *c),
            Err((l, msg)) => cpath_lookup(*graph, *node, **scope) == Err::<Rc<ConstantEntry>, (Loc, Seq<char>)>((l, msg@)),
        },
    decreases *node, 0int,
{
    match node {
        Node::Const(loc, Some(base), id) => {
            match resolve_cbase(graph, base, scope) {
                Ok(m) => {
                    proof {
                        graph.lemma_const_seen_valid(m, id.1@);
                    }
                    match graph.get_const(m, id.1.as_str()) {
                        Some(c) => Ok(c),
                        None => Err((loc.clone(), "No such constant")),
                    }
                },
                Err(e) => Err(e),
            }
        },
        Node::Const(loc, None, id) => {
            let scopes = Scope::ancestors(scope);
            let ghost mods = scope_modules(scope_at(scope));
            let mut i: usize = 0;
            assert(mods.skip(0) =~= mods);
            while i < scopes.len()
                invariant
                    graph.wf(),
                    scope_in(*graph, **scope),
                    *node == Node::Const(*loc, None, *id),
                    mods == scope_modules(**scope),
                    scopes@.len() == mods.len(),
                    forall|k: int| 0 <= k < scopes@.len() ==> #[trigger] scopes@[k].module == mods[k],
                    i <= mods.len(),
                    const_in_scopes(*graph, mods, id.1@) == const_in_scopes(*graph, mods.skip(i as int), id.1@),
                decreases mods.len() - i,
            {
                let m = scopes[i].module;
                assert(mods[i as int] == m);
                assert(mods.skip(i as int)[0] == m);
                assert(mods.skip(i as int).drop_first() =~= mods.skip(i + 1));
                proof {
                    graph.lemma_const_seen_valid(m, id.1@);
                }
                match graph.get_const(m, id.1.as_str()) {
                    Some(c) => {
                        assert(mods.skip(i as int).len() > 0);
                        assert(const_in_scopes(*graph, mods.skip(i as int), id.1@) == Some(c));
                        return Ok(c);
                    },
                    None => {},
                }
                i = i + 1;
            }
            assert(mods.skip(i as int) =~= Seq::<usize>::empty());
            Err((loc.clone(), "No such constant"))
        },
        _ => Err((node.loc().clone(), "Not a static constant path")),
    }
}


/// A scope of a graph stays one as the graph grows.
pub proof fn lemma_scope_in_grows(g1: ObjectGraph, g2: ObjectGraph, s: Scope)
    requires
        grows(g1, g2),
        scope_in(g1, s),
    ensures
        scope_in(g2, s),
        scope_modules(s).len() > 0,
        scope_modules(s)[0] == s.module,
{
    assert forall|k: int| 0 <= k < scope_modules(s).len() implies {
        &&& #[trigger] scope_modules(s)[k] < g2@.len()
        &&& !(g2@[scope_modules(s)[k] as int] is IClass)
    } by {
        let m = scope_modules(s)[k] as int;
        assert(crate::object::same_but_class(g2@[m], g1@[m]));
    }
    match s.parent {
        Some(p) => {},
        None => {},
    }
}

proof fn lemma_const_in_scopes_grows(g1: ObjectGraph, g2: ObjectGraph, mods: Seq<usize>, name: Seq<char>)
    requires
        grows(g1, g2),
        forall|k: int| 0 <= k < mods.len() ==> #[trigger] mods[k] < g1@.len(),
    ensures
        const_in_scopes(g2, mods, name) == const_in_scopes(g1, mods, name),
        const_in_scopes(g1, mods, name) matches Some(c) ==> const_valid(g1@, *c),
    decreases mods.len(),
{
    if mods.len() > 0 {
        ObjectGraph::lemma_grows_const_seen(g1, g2, mods[0], name);
        g1.lemma_const_seen_valid(mods[0], name);
        lemma_const_in_scopes_grows(g1, g2, mods.drop_first(), name);
    }
}

/// What a constant path names stays as the graph grows, and what it names
/// is an object of the graph.
pub proof fn lemma_cpath_lookup_grows(g1: ObjectGraph, g2: ObjectGraph, n: Node, s: Scope)
    requires
        grows(g1, g2),
        scope_in(g1, s),
    ensures
        cpath_lookup(g2, n, s) == cpath_lookup(g1, n, s),
        cbase_lookup(g2, n, s) == cbase_lookup(g1, n, s),
        cpath_lookup(g1, n, s) matches Ok(c) ==> const_valid(g1@, *c),
        cbase_lookup(g1, n, s) matches Ok(m) ==> m < g1@.len() && !(g1@[m as int] is IClass),
    decreases n,
{
    match n {
        Node::Const(_, Some(_), id) => {
            let base: Node = *n->Const_1->0;
            lemma_cpath_lookup_grows(g1, g2, base, s);
            match cbase_lookup(g1, base, s) {
                Ok(m) => {
                    ObjectGraph::lemma_grows_const_seen(g1, g2, m, id.1@);
                    g1.lemma_const_seen_valid(m, id.1@);
                },
                Err(_) => {},
            }
        },
        Node::Const(_, None, id) => {
            lemma_const_in_scopes_grows(g1, g2, scope_modules(s), id.1@);
        },
        Node::Cbase(_) => {
            lemma_root_in_scope(s);
            let k = scope_modules(s).len() - 1;
            assert(scope_modules(s)[k] == scope_root(s).module);
        },
        _ => {},
    }
}
} // verus!
