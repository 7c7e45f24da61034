//! The local variables in scope: what each is bound to, kept in a
//! persistent table that later bindings extend without changing.

use std::rc::Rc;
use vstd::prelude::*;
use crate::ast::Loc;
use crate::text::str_eq;
use crate::typecheck::types::{nillable_made, nillable_ok, type_loc, union_made, TypeEnv, TypeRef};

verus! {

broadcast use vstd::string::group_string_axioms;

/// A variable bound by assignment, with the type it holds.
pub struct BoundType {
    pub ty: TypeRef,
    pub asgn_loc: Loc,
}

/// A variable whose type was fixed where it was pinned.
pub struct PinnedType {
    pub ty: TypeRef,
    pub pinned_loc: Loc,
}

/// What a local variable is bound to.
pub enum LocalEntry {
    Bound(BoundType),
    Pinned(PinnedType),
    /// Pinned on some paths only.
    ConditionallyPinned(PinnedType),
}

/// Two entries for a variable brought together where paths meet: one
/// entry, or two whose types must agree.
pub enum LocalEntryMerge {
    Okay(LocalEntry),
    MustMatch(LocalEntry, LocalEntry),
}

impl Clone for BoundType {
    fn clone(&self) -> (r: Self)
        ensures
            r == *self,
    {
        BoundType { ty: self.ty, asgn_loc: self.asgn_loc.clone() }
    }
}

impl Clone for PinnedType {
    fn clone(&self) -> (r: Self)
        ensures
            r == *self,
    {
        PinnedType { ty: self.ty, pinned_loc: self.pinned_loc.clone() }
    }
}

impl Clone for LocalEntry {
    fn clone(&self) -> (r: Self)
        ensures
            r == *self,
    {
        match self {
            LocalEntry::Bound(b) => LocalEntry::Bound(b.clone()),
            LocalEntry::Pinned(p) => LocalEntry::Pinned(p.clone()),
            LocalEntry::ConditionallyPinned(p) => LocalEntry::ConditionallyPinned(p.clone()),
        }
    }
}

/// One binding of a table, and the table it extends.
pub struct LocalNode {
    pub name: String,
    pub entry: LocalEntry,
    pub next: LocalTable,
}

/// A persistent table of local variables: a chain of bindings, the most
/// recent first. Inserting makes a new table that shares the old one.
pub struct LocalTable {
    pub node: Option<Rc<LocalNode>>,
}

impl Clone for LocalTable {
    fn clone(&self) -> (r: Self)
        ensures
            r == *self,
    {
        match &self.node {
            Some(n) => LocalTable { node: Some(Rc::clone(n)) },
            None => LocalTable { node: None },
        }
    }
}

/// The first binding of `name` in `s`, if there is one.
pub open spec fn lookup(s: Seq<(String, LocalEntry)>, name: Seq<char>) -> Option<LocalEntry>
    decreases s.len(),
{
    if s.len() == 0 {
        None
    } else if s[0].0@ == name {
        Some(s[0].1)
    } else {
        lookup(s.drop_first(), name)
    }
}

/// Whether some binding of `s` is for `name`.
pub open spec fn binds(s: Seq<(String, LocalEntry)>, name: Seq<char>) -> bool {
    exists|i: int| 0 <= i < s.len() && (#[trigger] s[i]).0@ == name
}

/// The bindings of `s` with only the first one of each name kept, in order.
pub open spec fn first_bindings(s: Seq<(String, LocalEntry)>) -> Seq<(String, LocalEntry)>
    decreases s.len(),
{
    if s.len() == 0 {
        seq![]
    } else {
        let rest = first_bindings(s.drop_last());
        if binds(rest, s.last().0@) { rest } else { rest.push(s.last()) }
    }
}

impl LocalTable {
    /// The bindings of the table, the most recent first.
    pub open spec fn bindings(self) -> Seq<(String, LocalEntry)>
        decreases self,
    {
        match self.node {
            None => seq![],
            Some(n) => seq![(n.name, n.entry)] + n.next.bindings(),
        }
    }

    /// The tables of the chain that starts here, this one first and the
    /// empty one last.
    pub open spec fn chain(self) -> Seq<LocalTable>
        decreases self,
    {
        match self.node {
            None => seq![self],
            Some(n) => seq![self] + n.next.chain(),
        }
    }

    /// A table with no bindings.
    pub fn new() -> (r: LocalTable)
        ensures
            r.bindings() == Seq::<(String, LocalEntry)>::empty(),
    {
        LocalTable { node: None }
    }

    /// This table with `name` bound to `entry` in front.
    pub fn insert(&self, name: String, entry: LocalEntry) -> (r: LocalTable)
        ensures
            r.bindings() == seq![(name, entry)] + self.bindings(),
    {
        LocalTable { node: Some(Rc::new(LocalNode { name, entry, next: self.clone() })) }
    }

    /// What `name` is bound to: its most recent binding.
    pub fn get(&self, name: &str) -> (r: Option<LocalEntry>)
        ensures
            r == lookup(self.bindings(), name@),
            r == find(named(self.bindings()), name@),
        decreases *self,
    {
        match &self.node {
            None => None,
            Some(n) => {
                assert((seq![(n.name, n.entry)] + n.next.bindings()).drop_first() =~= n.next.bindings());
                assert(named(seq![(n.name, n.entry)] + n.next.bindings()).drop_first() =~= named(n.next.bindings()));
                if str_eq(n.name.as_str(), name) {
                    Some(n.entry.clone())
                } else {
                    n.next.get(name)
                }
            },
        }
    }

    /// The number of bindings in the table.
    fn depth(&self) -> (r: usize)
        requires
            self.bindings().len() <= usize::MAX,
        ensures
            r == self.bindings().len(),
        decreases *self,
    {
        match &self.node {
            None => 0,
            Some(n) => n.next.depth() + 1,
        }
    }

    /// The tables of the chain that starts here, this one first and the
    /// empty one last.
    pub fn iter(&self) -> (r: Vec<LocalTable>)
        ensures
            r@ == self.chain(),
        decreases *self,
    {
        match &self.node {
            None => {
                let mut v: Vec<LocalTable> = Vec::new();
                v.push(self.clone());
                assert(v@ =~= self.chain());
                v
            },
            Some(n) => {
                let rest = n.next.iter();
                let mut v: Vec<LocalTable> = Vec::new();
                v.push(self.clone());
                let mut i: usize = 0;
                while i < rest.len()
                    invariant
                        i <= rest@.len(),
                        v@ == seq![*self] + rest@.subrange(0, i as int),
                    decreases rest@.len() - i,
                {
                    v.push(rest[i].clone());
                    i = i + 1;
                    assert(v@ =~= seq![*self] + rest@.subrange(0, i as int));
                }
                assert(rest@.subrange(0, rest@.len() as int) =~= rest@);
                v
            },
        }
    }

    /// The bindings made since the table `since`, which this table
    /// extends: for each name bound in between, its most recent binding.
    pub fn bindings_since(&self, since: &LocalTable) -> (r: Vec<(String, LocalEntry)>)
        requires
            self.bindings().len() <= usize::MAX,
            since.bindings().len() <= self.bindings().len(),
            self.bindings().subrange(
                self.bindings().len() - since.bindings().len(),
                self.bindings().len() as int,
            ) == since.bindings(),
        ensures
            r@ == first_bindings(self.bindings().subrange(0, self.bindings().len() - since.bindings().len())),
    {
        let stop = since.depth();
        let total = self.depth();
        let ghost all = self.bindings();
        let ghost k = all.len() - since.bindings().len();
        let mut out: Vec<(String, LocalEntry)> = Vec::new();
        let mut tbl = self.clone();
        let mut d: usize = total;
        while d > stop
            invariant
                stop <= d <= total,
                total == all.len(),
                k == total - stop,
                tbl.bindings() == all.subrange(total - d, total as int),
                out@ == first_bindings(all.subrange(0, total - d)),
            decreases d,
        {
            let ghost i = total - d;
            assert(tbl.bindings().len() == d);
            match &tbl.node {
                None => {
                    assert(false);
                },
                Some(n) => {
                    assert(all[i] == (n.name, n.entry)) by {
                        assert(tbl.bindings()[0] == all.subrange(total - d, total as int)[0]);
                    }
                    assert(all.subrange(0, i + 1).drop_last() =~= all.subrange(0, i));
                    let mut seen = false;
                    let mut j: usize = 0;
                    while j < out.len()
                        invariant
                            j <= out@.len(),
                            seen == exists|q: int| 0 <= q < j && (#[trigger] out@[q]).0@ == n.name@,
                        decreases out@.len() - j,
                    {
                        if str_eq(out[j].0.as_str(), n.name.as_str()) {
                            seen = true;
                        }
                        j = j + 1;
                    }
                    if !seen {
                        out.push((n.name.clone(), n.entry.clone()));
                    }
                    let next = n.next.clone();
                    assert(next.bindings() =~= all.subrange(total - d + 1, total as int)) by {
                        assert(tbl.bindings().drop_first() =~= next.bindings());
                    }
                    tbl = next;
                    d = d - 1;
                },
            }
        }
        out
    }
}

/// `Rc::ptr_eq` of std: whether two shared pointers point to the same
/// allocation. When they do, what they point to is the same value; the
/// converse is not stated.
#[verifier::external_body]
fn same_node(a: &Rc<LocalNode>, b: &Rc<LocalNode>) -> (r: bool)
    ensures
        r ==> *a == *b,
{
    Rc::ptr_eq(a, b)
}

impl LocalTable {
    /// Whether the two tables are the very same chain; the empty table is
    /// the same as any other empty table. Tables that are the same hold the
    /// same bindings.
    pub fn ref_eq(&self, other: &LocalTable) -> (r: bool)
        ensures
            r ==> *self == *other,
            (self.node is None && other.node is None) ==> r,
            (self.node is None) != (other.node is None) ==> !r,
    {
        match (&self.node, &other.node) {
            (None, None) => true,
            (Some(a), Some(b)) => same_node(a, b),
            _ => false,
        }
    }
}

/// A table with `name` bound in front gives that binding for `name`, and
/// for every other name what the table gave before.
pub proof fn lemma_get_after_insert(t: LocalTable, name: String, entry: LocalEntry, other: Seq<char>)
    ensures
        lookup(seq![(name, entry)] + t.bindings(), name@) == Some(entry),
        other != name@ ==> lookup(seq![(name, entry)] + t.bindings(), other) == lookup(t.bindings(), other),
{
    let s = seq![(name, entry)] + t.bindings();
    assert(s.drop_first() =~= t.bindings());
}

/// One scope of local variables: its own bindings, and the scope around it.
pub struct LocalScope {
    pub parent: Option<Locals>,
    pub vars: LocalTable,
}

/// The local variables in scope: nested scopes, the innermost first. A
/// block's scope sees the variables of the scopes around it.
pub struct Locals {
    pub sc: Rc<LocalScope>,
}

impl Clone for Locals {
    fn clone(&self) -> (r: Self)
        ensures
            r == *self,
    {
        Locals { sc: Rc::clone(&self.sc) }
    }
}

/// Why a variable of an outer scope is used from an inner one: read, or
/// assigned to.
#[derive(Clone, Copy, PartialEq, Eq, Debug, Structural)]
pub enum UseKind {
    Read,
    Write,
}

/// What a variable of an outer scope becomes when an inner scope uses it
/// at `loc`: a bound variable is pinned there to its type; an assignment
/// pins one that is pinned on some paths only.
pub open spec fn pinned_entry(kind: UseKind, e: LocalEntry, loc: Loc) -> LocalEntry {
    match e {
        LocalEntry::Bound(b) => LocalEntry::Pinned(PinnedType { ty: b.ty, pinned_loc: loc }),
        LocalEntry::Pinned(p) => LocalEntry::Pinned(p),
        LocalEntry::ConditionallyPinned(p) => match kind {
            UseKind::Read => LocalEntry::ConditionallyPinned(p),
            UseKind::Write => LocalEntry::Pinned(p),
        },
    }
}

/// Bindings with their names as text.
pub open spec fn named(s: Seq<(String, LocalEntry)>) -> Seq<(Seq<char>, LocalEntry)> {
    s.map_values(|b: (String, LocalEntry)| (b.0@, b.1))
}

/// The first binding of `name` in `s`, if there is one.
pub open spec fn find(s: Seq<(Seq<char>, LocalEntry)>, name: Seq<char>) -> Option<LocalEntry>
    decreases s.len(),
{
    if s.len() == 0 {
        None
    } else if s[0].0 == name {
        Some(s[0].1)
    } else {
        find(s.drop_first(), name)
    }
}

/// Looking a name up reads the same with names as text.
pub proof fn lemma_find_named(s: Seq<(String, LocalEntry)>, name: Seq<char>)
    ensures
        find(named(s), name) == lookup(s, name),
    decreases s.len(),
{
    if s.len() > 0 {
        assert(named(s).drop_first() =~= named(s.drop_first()));
        lemma_find_named(s.drop_first(), name);
    }
}

/// The first of the scopes `fr` that binds `name`, if one does.
pub open spec fn binding_frame(fr: Seq<Seq<(Seq<char>, LocalEntry)>>, name: Seq<char>) -> Option<int>
    decreases fr.len(),
{
    if fr.len() == 0 {
        None
    } else if find(fr[0], name) is Some {
        Some(0)
    } else {
        match binding_frame(fr.drop_first(), name) {
            Some(k) => Some(k + 1),
            None => None,
        }
    }
}

/// The scope that binds a name first is one of the scopes, and binds it.
pub proof fn lemma_binding_frame(fr: Seq<Seq<(Seq<char>, LocalEntry)>>, name: Seq<char>)
    ensures
        binding_frame(fr, name) matches Some(k) ==> 0 <= k < fr.len() && find(fr[k], name) is Some,
    decreases fr.len(),
{
    if fr.len() > 0 && find(fr[0], name) is None {
        lemma_binding_frame(fr.drop_first(), name);
    }
}

/// The scopes `fr` with `name` bound to `e` in front in scope `k`.
pub open spec fn bind_in(fr: Seq<Seq<(Seq<char>, LocalEntry)>>, k: int, name: Seq<char>, e: LocalEntry)
    -> Seq<Seq<(Seq<char>, LocalEntry)>>
{
    fr.update(k, seq![(name, e)] + fr[k])
}

/// A use of the variable `name` from an inner scope, looked for in the
/// scopes `fr`: what it becomes, and the scopes with it so where it is
/// bound; nothing where no scope binds it.
pub open spec fn upvar_use(fr: Seq<Seq<(Seq<char>, LocalEntry)>>, name: Seq<char>, kind: UseKind, loc: Loc)
    -> Option<(LocalEntry, Seq<Seq<(Seq<char>, LocalEntry)>>)>
{
    match binding_frame(fr, name) {
        Some(k) => {
            let e = pinned_entry(kind, find(fr[k], name)->0, loc);
            Some((e, bind_in(fr, k, name, e)))
        },
        None => None,
    }
}

/// Reading the variable `name` at `loc`: its binding in the innermost
/// scope, else the binding of an outer scope, which the read pins; the
/// scopes after the read.
pub open spec fn lookup_spec(fr: Seq<Seq<(Seq<char>, LocalEntry)>>, name: Seq<char>, loc: Loc)
    -> (Option<LocalEntry>, Seq<Seq<(Seq<char>, LocalEntry)>>)
{
    match find(fr[0], name) {
        Some(e) => (Some(e), fr),
        None => match upvar_use(fr, name, UseKind::Read, loc) {
            Some((e, fr2)) => (Some(e), fr2),
            None => (None, fr),
        },
    }
}

/// Assigning a value of type `ty` to `name` at `loc`: a variable pinned
/// in the innermost scope, or bound in an outer one (which the assignment
/// pins), keeps its pinned type, which is given back; otherwise the
/// variable is bound anew in the innermost scope.
pub open spec fn assign_spec(fr: Seq<Seq<(Seq<char>, LocalEntry)>>, name: Seq<char>, ty: TypeRef, loc: Loc)
    -> (Option<PinnedType>, Seq<Seq<(Seq<char>, LocalEntry)>>)
{
    let bound = LocalEntry::Bound(BoundType { ty, asgn_loc: loc });
    match find(fr[0], name) {
        Some(LocalEntry::Bound(_)) => (None, bind_in(fr, 0, name, bound)),
        Some(LocalEntry::Pinned(p)) => (Some(p), fr),
        Some(LocalEntry::ConditionallyPinned(p)) => (Some(p), fr),
        None => match upvar_use(fr.drop_first(), name, UseKind::Write, loc) {
            Some((LocalEntry::Pinned(p), fr2)) => (Some(p), seq![fr[0]] + fr2),
            _ => (None, bind_in(fr, 0, name, bound)),
        },
    }
}

impl Locals {
    /// The bindings of each scope, the innermost first.
    pub open spec fn frames(self) -> Seq<Seq<(Seq<char>, LocalEntry)>>
        decreases self,
    {
        match self.sc.parent {
            None => seq![named(self.sc.vars.bindings())],
            Some(p) => seq![named(self.sc.vars.bindings())] + p.frames(),
        }
    }

    fn new_(l: LocalScope) -> (r: Locals)
        ensures
            *r.sc == l,
    {
        Locals { sc: Rc::new(l) }
    }

    /// One empty scope.
    pub fn new() -> (r: Locals)
        ensures
            r.frames() == seq![Seq::<(Seq<char>, LocalEntry)>::empty()],
    {
        let r = Self::new_(LocalScope { parent: None, vars: LocalTable::new() });
        assert(named(Seq::<(String, LocalEntry)>::empty()) =~= Seq::<(Seq<char>, LocalEntry)>::empty());
        r
    }

    /// An empty scope inside this one.
    pub fn extend(&self) -> (r: Locals)
        ensures
            r.frames() == seq![Seq::<(Seq<char>, LocalEntry)>::empty()] + self.frames(),
    {
        let r = Self::new_(LocalScope { parent: Some(self.clone()), vars: LocalTable::new() });
        assert(named(Seq::<(String, LocalEntry)>::empty()) =~= Seq::<(Seq<char>, LocalEntry)>::empty());
        r
    }

    /// The scope around this one.
    pub fn unextend(&self) -> (r: Locals)
        requires
            self.sc.parent is Some,
        ensures
            r.frames() == self.frames().drop_first(),
    {
        let r = match &self.sc.parent {
            Some(p) => p.clone(),
            None => Locals::new(),
        };
        assert((seq![named(self.sc.vars.bindings())] + r.frames()).drop_first() =~= r.frames());
        r
    }

    fn update_parent(&self, parent: Option<Locals>) -> (r: Locals)
        ensures
            r.sc.vars == self.sc.vars,
            r.sc.parent == parent,
    {
        Self::new_(LocalScope { parent, vars: self.sc.vars.clone() })
    }

    /// The binding of `name` in the innermost scope.
    fn get_var_direct(&self, name: &str) -> (r: Option<LocalEntry>)
        ensures
            r == find(self.frames()[0], name@),
    {
        self.sc.vars.get(name)
    }

    fn insert_var(&self, name: String, entry: LocalEntry) -> (r: Locals)
        ensures
            r.frames() == bind_in(self.frames(), 0, name@, entry),
    {
        let ghost n = name@;
        let vars = self.sc.vars.insert(name, entry);
        let r = Self::new_(LocalScope { parent: self.sc.parent.clone(), vars });
        assert(named(r.sc.vars.bindings()) =~= seq![(n, entry)] + named(self.sc.vars.bindings()));
        assert(r.frames() =~= bind_in(self.frames(), 0, n, entry));
        r
    }

    /// What a variable becomes when it is used from an inner scope.
    fn pin(kind: UseKind, e: LocalEntry, loc: &Loc) -> (r: LocalEntry)
        ensures
            r == pinned_entry(kind, e, *loc),
    {
        match e {
            LocalEntry::Bound(b) => LocalEntry::Pinned(PinnedType { ty: b.ty, pinned_loc: loc.clone() }),
            LocalEntry::Pinned(p) => LocalEntry::Pinned(p),
            LocalEntry::ConditionallyPinned(p) => match kind {
                UseKind::Read => LocalEntry::ConditionallyPinned(p),
                UseKind::Write => LocalEntry::Pinned(p),
            },
        }
    }

    /// Uses the variable `name` from an inner scope: the scopes with it
    /// pinned where it is bound.
    fn update_upvar(&self, name: &str, kind: UseKind, loc: &Loc) -> (r: (Option<LocalEntry>, Option<Locals>))
        ensures
            match upvar_use(self.frames(), name@, kind, *loc) {
                Some((e, fr)) => r.0 == Some(e) && (r.1 matches Some(l) && l.frames() == fr),
                None => r.0 is None && r.1 is None,
            },
        decreases *self,
    {
        match self.get_var_direct(name) {
            Some(local) => {
                let new_local = Self::pin(kind, local, loc);
                let r = self.insert_var(name.to_owned(), new_local.clone());
                (Some(new_local), Some(r))
            },
            None => {
                match &self.sc.parent {
                    Some(parent) => {
                        let ghost pf = parent.frames();
                        assert(self.frames().drop_first() =~= pf);
                        let (x, p) = parent.update_upvar(name, kind, loc);
                        match p {
                            Some(p) => {
                                let r = self.update_parent(Some(p));
                                proof {
                                    lemma_binding_frame(pf, name@);
                                    let k = binding_frame(pf, name@)->0;
                                    let e = x->0;
                                    assert(p.frames() == bind_in(pf, k, name@, e));
                                    assert(r.frames() == seq![named(self.sc.vars.bindings())] + p.frames());
                                    assert(self.frames() == seq![named(self.sc.vars.bindings())] + pf);
                                    assert(binding_frame(self.frames(), name@) == Some(k + 1));
                                    assert((seq![named(self.sc.vars.bindings())] + pf)[k + 1] == pf[k]);
                                    assert(r.frames() =~= bind_in(self.frames(), k + 1, name@, e));
                                }
                                (x, Some(r))
                            },
                            None => (x, None),
                        }
                    },
                    None => {
                        assert(self.frames().drop_first() =~= Seq::<Seq<(Seq<char>, LocalEntry)>>::empty());
                        (None, None)
                    },
                }
            },
        }
    }

    /// Reads the variable `name` at `loc`: its binding, and the scopes
    /// after the read, which pins a variable of an outer scope.
    pub fn lookup(&self, name: &str, loc: &Loc) -> (r: (Option<LocalEntry>, Locals))
        ensures
            (r.0, r.1.frames()) == lookup_spec(self.frames(), name@, *loc),
    {
        match self.get_var_direct(name) {
            Some(local) => (Some(local), self.clone()),
            None => {
                let updated = self.update_upvar(name, UseKind::Read, loc);
                match updated {
                    (x, Some(locals)) => (x, locals),
                    (x, None) => (x, self.clone()),
                }
            },
        }
    }

    /// Binds `name` to a value of type `ty` in the innermost scope, hiding
    /// any variable of that name around it.
    pub fn assign_shadow(&self, name: String, ty: TypeRef, loc: &Loc) -> (r: Locals)
        ensures
            r.frames() == bind_in(self.frames(), 0, name@,
                LocalEntry::Bound(BoundType { ty, asgn_loc: *loc })),
    {
        self.insert_var(name, LocalEntry::Bound(BoundType { ty, asgn_loc: loc.clone() }))
    }

    /// Assigns a value of type `ty` to `name` at `loc`; gives back the type
    /// the variable is pinned to, where it is pinned.
    pub fn assign(&self, name: String, ty: TypeRef, loc: &Loc) -> (r: (Option<PinnedType>, Locals))
        ensures
            (r.0, r.1.frames()) == assign_spec(self.frames(), name@, ty, *loc),
    {
        let bind = BoundType { ty, asgn_loc: loc.clone() };
        match self.get_var_direct(name.as_str()) {
            Some(LocalEntry::Bound(_)) => {
                return (None, self.insert_var(name, LocalEntry::Bound(bind)));
            },
            Some(LocalEntry::Pinned(pin)) => {
                return (Some(pin), self.clone());
            },
            Some(LocalEntry::ConditionallyPinned(pin)) => {
                return (Some(pin), self.clone());
            },
            None => {},
        }
        if let Some(parent) = &self.sc.parent {
            assert(self.frames().drop_first() =~= parent.frames());
            let (entry, locals) = parent.update_upvar(name.as_str(), UseKind::Write, loc);
            if let Some(LocalEntry::Pinned(pinned_ty)) = entry {
                let r = match locals {
                    Some(l) => self.update_parent(Some(l)),
                    None => self.clone(),
                };
                assert(r.frames() =~= seq![self.frames()[0]] + (upvar_use(parent.frames(), name@, UseKind::Write, *loc)->0).1);
                return (Some(pinned_ty), r);
            }
        } else {
            assert(self.frames().drop_first() =~= Seq::<Seq<(Seq<char>, LocalEntry)>>::empty());
        }
        (None, self.insert_var(name, LocalEntry::Bound(bind)))
    }

    /// Narrows a variable bound in the innermost scope to type `ty`, where
    /// it is bound there and not pinned.
    pub fn refine(&self, name: &str, ty: TypeRef) -> (r: Locals)
        ensures
            r.frames() == match find(self.frames()[0], name@) {
                Some(LocalEntry::Bound(b)) => bind_in(self.frames(), 0, name@,
                    LocalEntry::Bound(BoundType { ty, asgn_loc: b.asgn_loc })),
                _ => self.frames(),
            },
    {
        match self.get_var_direct(name) {
            Some(LocalEntry::Bound(bind)) => {
                self.insert_var(name.to_owned(), LocalEntry::Bound(BoundType { ty, asgn_loc: bind.asgn_loc }))
            },
            _ => self.clone(),
        }
    }
}

/// A variable assigned without being pinned reads back, in the scope it
/// was assigned in, as bound to the assigned type at the assignment.
pub proof fn lemma_read_after_assign(fr: Seq<Seq<(Seq<char>, LocalEntry)>>, name: Seq<char>, ty: TypeRef, loc: Loc, loc2: Loc)
    requires
        fr.len() > 0,
        assign_spec(fr, name, ty, loc).0 is None,
    ensures
        lookup_spec(assign_spec(fr, name, ty, loc).1, name, loc2).0
            == Some(LocalEntry::Bound(BoundType { ty, asgn_loc: loc })),
{
    let bound = LocalEntry::Bound(BoundType { ty, asgn_loc: loc });
    let fr2 = assign_spec(fr, name, ty, loc).1;
    assert(fr2 == bind_in(fr, 0, name, bound));
    assert((seq![(name, bound)] + fr[0])[0] == (name, bound));
}

/// Leaving a scope just entered gives back the scopes before.
pub proof fn lemma_unextend_extend(before: Seq<Seq<(Seq<char>, LocalEntry)>>)
    ensures
        (seq![Seq::<(Seq<char>, LocalEntry)>::empty()] + before).drop_first() == before,
{
    assert((seq![Seq::<(Seq<char>, LocalEntry)>::empty()] + before).drop_first() =~= before);
}

/// How two entries for a variable are brought together where paths meet:
/// settled without types, or a bound variable's type made nillable, or the
/// union of two bound variables' types.
pub enum MergePlan {
    Settled(LocalEntryMerge),
    WithNil(BoundType),
    Joined(BoundType, BoundType),
}

/// How the entries `a` and `b` of one variable on two paths are brought
/// together: a variable bound on one path only may be `nil`; a variable
/// pinned on one path only is pinned on some; two bound ones take either
/// type; where a pinned variable meets another entry, the two must match.
pub open spec fn merge_plan(a: Option<LocalEntry>, b: Option<LocalEntry>) -> MergePlan {
    match (a, b) {
        (None, Some(LocalEntry::Bound(bind))) => MergePlan::WithNil(bind),
        (None, Some(LocalEntry::Pinned(pin))) => MergePlan::Settled(LocalEntryMerge::Okay(LocalEntry::ConditionallyPinned(pin))),
        (None, Some(LocalEntry::ConditionallyPinned(pin))) => MergePlan::Settled(LocalEntryMerge::Okay(LocalEntry::ConditionallyPinned(pin))),
        (Some(LocalEntry::Bound(bind)), None) => MergePlan::WithNil(bind),
        (Some(LocalEntry::Bound(x)), Some(LocalEntry::Bound(y))) => MergePlan::Joined(x, y),
        (Some(LocalEntry::Bound(bind)), Some(LocalEntry::Pinned(pin))) =>
            MergePlan::Settled(LocalEntryMerge::MustMatch(LocalEntry::Pinned(pin), LocalEntry::Bound(bind))),
        (Some(LocalEntry::Bound(bind)), Some(LocalEntry::ConditionallyPinned(pin))) =>
            MergePlan::Settled(LocalEntryMerge::MustMatch(LocalEntry::ConditionallyPinned(pin), LocalEntry::Bound(bind))),
        (Some(LocalEntry::Pinned(pin)), None) => MergePlan::Settled(LocalEntryMerge::Okay(LocalEntry::ConditionallyPinned(pin))),
        (Some(LocalEntry::Pinned(pin)), Some(LocalEntry::Bound(bind))) =>
            MergePlan::Settled(LocalEntryMerge::MustMatch(LocalEntry::Pinned(pin), LocalEntry::Bound(bind))),
        (Some(LocalEntry::Pinned(x)), Some(LocalEntry::Pinned(y))) =>
            MergePlan::Settled(LocalEntryMerge::MustMatch(LocalEntry::Pinned(x), LocalEntry::Pinned(y))),
        (Some(LocalEntry::Pinned(x)), Some(LocalEntry::ConditionallyPinned(y))) =>
            MergePlan::Settled(LocalEntryMerge::MustMatch(LocalEntry::ConditionallyPinned(y), LocalEntry::Pinned(x))),
        (Some(LocalEntry::ConditionallyPinned(pin)), None) => MergePlan::Settled(LocalEntryMerge::Okay(LocalEntry::ConditionallyPinned(pin))),
        (Some(LocalEntry::ConditionallyPinned(pin)), Some(LocalEntry::Bound(bind))) =>
            MergePlan::Settled(LocalEntryMerge::MustMatch(LocalEntry::ConditionallyPinned(pin), LocalEntry::Bound(bind))),
        (Some(LocalEntry::ConditionallyPinned(x)), Some(LocalEntry::Pinned(y))) =>
            MergePlan::Settled(LocalEntryMerge::MustMatch(LocalEntry::ConditionallyPinned(x), LocalEntry::Pinned(y))),
        (Some(LocalEntry::ConditionallyPinned(x)), Some(LocalEntry::ConditionallyPinned(y))) =>
            MergePlan::Settled(LocalEntryMerge::MustMatch(LocalEntry::ConditionallyPinned(x), LocalEntry::ConditionallyPinned(y))),
        (None, None) => MergePlan::Settled(LocalEntryMerge::Okay(LocalEntry::ConditionallyPinned(vstd::pervasive::arbitrary()))),
    }
}

/// What merging needs of the types: each type it makes can be formed.
pub open spec fn merge_ok(env: TypeEnv, a: Option<LocalEntry>, b: Option<LocalEntry>) -> bool {
    &&& !(a is None && b is None)
    &&& match merge_plan(a, b) {
        MergePlan::Settled(_) => true,
        MergePlan::WithNil(bt) => env.valid(bt.ty) && env.types@.len() < usize::MAX
            && nillable_ok(env, type_loc(env.at(bt.ty)), bt.ty),
        MergePlan::Joined(x, y) => env.valid(x.ty) && env.valid(y.ty) && env.union_ok(x.ty, y.ty),
    }
}

impl LocalEntry {
    /// Brings together the entries `a` and `b` of one variable on two paths
    /// where they meet, forming in `env` the types that needs.
    pub fn merge(a: Option<LocalEntry>, b: Option<LocalEntry>, env: &mut TypeEnv) -> (r: LocalEntryMerge)
        requires
            old(env).wf(),
            merge_ok(*old(env), a, b),
        ensures
            final(env).wf(),
            match merge_plan(a, b) {
                MergePlan::Settled(m) => r == m && *final(env) == *old(env),
                MergePlan::WithNil(bt) => r matches LocalEntryMerge::Okay(LocalEntry::Bound(nb))
                    && nb.asgn_loc == bt.asgn_loc
                    && nillable_made(*old(env), *final(env), type_loc(old(env).at(bt.ty)), bt.ty, nb.ty),
                MergePlan::Joined(x, y) => r matches LocalEntryMerge::Okay(LocalEntry::Bound(nb))
                    && nb.asgn_loc == x.asgn_loc
                    && union_made(*old(env), *final(env), type_loc(old(env).at(x.ty)), x.ty, y.ty, nb.ty),
            },
    {
        match (a, b) {
            (None, Some(LocalEntry::Bound(bind))) | (Some(LocalEntry::Bound(bind)), None) => {
                let l = env.get(bind.ty).loc().clone();
                let ty = env.nillable(&l, bind.ty);
                LocalEntryMerge::Okay(LocalEntry::Bound(BoundType { ty, asgn_loc: bind.asgn_loc }))
            },
            (None, Some(LocalEntry::Pinned(pin))) => LocalEntryMerge::Okay(LocalEntry::ConditionallyPinned(pin)),
            (None, Some(LocalEntry::ConditionallyPinned(pin))) => LocalEntryMerge::Okay(LocalEntry::ConditionallyPinned(pin)),
            (Some(LocalEntry::Bound(x)), Some(LocalEntry::Bound(y))) => {
                let l = env.get(x.ty).loc().clone();
                let ty = env.union(&l, x.ty, y.ty);
                LocalEntryMerge::Okay(LocalEntry::Bound(BoundType { ty, asgn_loc: x.asgn_loc }))
            },
            (Some(LocalEntry::Bound(bind)), Some(LocalEntry::Pinned(pin))) =>
                LocalEntryMerge::MustMatch(LocalEntry::Pinned(pin), LocalEntry::Bound(bind)),
            (Some(LocalEntry::Bound(bind)), Some(LocalEntry::ConditionallyPinned(pin))) =>
                LocalEntryMerge::MustMatch(LocalEntry::ConditionallyPinned(pin), LocalEntry::Bound(bind)),
            (Some(LocalEntry::Pinned(pin)), None) => LocalEntryMerge::Okay(LocalEntry::ConditionallyPinned(pin)),
            (Some(LocalEntry::Pinned(pin)), Some(LocalEntry::Bound(bind))) =>
                LocalEntryMerge::MustMatch(LocalEntry::Pinned(pin), LocalEntry::Bound(bind)),
            (Some(LocalEntry::Pinned(x)), Some(LocalEntry::Pinned(y))) =>
                LocalEntryMerge::MustMatch(LocalEntry::Pinned(x), LocalEntry::Pinned(y)),
            (Some(LocalEntry::Pinned(x)), Some(LocalEntry::ConditionallyPinned(y))) =>
                LocalEntryMerge::MustMatch(LocalEntry::ConditionallyPinned(y), LocalEntry::Pinned(x)),
            (Some(LocalEntry::ConditionallyPinned(pin)), None) => LocalEntryMerge::Okay(LocalEntry::ConditionallyPinned(pin)),
            (Some(LocalEntry::ConditionallyPinned(pin)), Some(LocalEntry::Bound(bind))) =>
                LocalEntryMerge::MustMatch(LocalEntry::ConditionallyPinned(pin), LocalEntry::Bound(bind)),
            (Some(LocalEntry::ConditionallyPinned(x)), Some(LocalEntry::Pinned(y))) =>
                LocalEntryMerge::MustMatch(LocalEntry::ConditionallyPinned(x), LocalEntry::Pinned(y)),
            (Some(LocalEntry::ConditionallyPinned(x)), Some(LocalEntry::ConditionallyPinned(y))) =>
                LocalEntryMerge::MustMatch(LocalEntry::ConditionallyPinned(x), LocalEntry::ConditionallyPinned(y)),
            (None, None) => {
                assert(false);
                LocalEntryMerge::Okay(LocalEntry::Bound(BoundType { ty: TypeRef(0), asgn_loc: env.get(TypeRef(0)).loc().clone() }))
            },
        }
    }
}

/// Where a variable has an entry on one path only, it does not matter
/// which path lacks it: merging gives the same either way. A variable
/// bound on one path only gets its type made nillable, since it may be
/// unset on the other; one pinned on one path only is pinned on some.
pub proof fn lemma_merge_one_sided(e: LocalEntry)
    ensures
        merge_plan(None, Some(e)) == merge_plan(Some(e), None),
        e matches LocalEntry::Bound(b) ==> merge_plan(None, Some(e)) == MergePlan::WithNil(b),
        e matches LocalEntry::Pinned(p) ==> merge_plan(None, Some(e))
            == MergePlan::Settled(LocalEntryMerge::Okay(LocalEntry::ConditionallyPinned(p))),
        e matches LocalEntry::ConditionallyPinned(p) ==> merge_plan(None, Some(e))
            == MergePlan::Settled(LocalEntryMerge::Okay(LocalEntry::ConditionallyPinned(p))),
{
}

} // verus!
