//! A map from ids to values in which each inserted value gets the next id;
//! id 0 stands for no value.

use vstd::prelude::*;

verus! {

pub type Id = usize;

/// The id that stands for no value.
pub const NULL_ID: Id = 0;

pub struct SeqMap<T> {
    vec: Vec<T>,
}

impl<T> SeqMap<T> {
    /// The values inserted so far: the value with id `i` is at index `i - 1`.
    pub closed spec fn values(&self) -> Seq<T> {
        self.vec@
    }

    pub fn new() -> (r: Self)
        ensures
            r.values() == Seq::<T>::empty(),
    {
        SeqMap { vec: Vec::new() }
    }

    /// Stores `value`, if there is one, and returns its id; `None` gives
    /// `NULL_ID` and stores nothing.
    pub fn insert(&mut self, value: Option<T>) -> (id: Id)
        requires
            old(self).values().len() < usize::MAX,
        ensures
            match value {
                None => id == NULL_ID && final(self).values() == old(self).values(),
                Some(x) => id == old(self).values().len() + 1
                    && final(self).values() == old(self).values().push(x),
            },
    {
        match value {
            None => NULL_ID,
            Some(x) => {
                let id = self.vec.len() + 1;
                self.vec.push(x);
                id
            },
        }
    }

    /// The value with id `id`, or `None` for `NULL_ID`.
    pub fn get(&self, id: Id) -> (r: Option<&T>)
        requires
            id <= self.values().len(),
        ensures
            id == 0 ==> r is None,
            id != 0 ==> r == Some(&self.values()[id - 1]),
    {
        if id == 0 {
            None
        } else {
            Some(&self.vec[id - 1])
        }
    }
}

/// What `insert` stores, `get` gives back under the id that `insert`
/// returned, and every value stored before keeps its id (the value with id `j + 1` sits
/// at index `j`).
pub proof fn lemma_get_after_insert<T>(before: Seq<T>, after: Seq<T>, x: T, id: Id)
    requires
        id == before.len() + 1,
        after == before.push(x),
    ensures
        after[id - 1] == x,
        forall|j: int| 0 <= j < before.len() ==> #[trigger] after[j] == before[j],
{
}

/// The values a map holds after the inserts `inserts`, made in order on an
/// empty map: each value that was there, in order.
pub open spec fn stored<T>(inserts: Seq<Option<T>>) -> Seq<T>
    decreases inserts.len(),
{
    if inserts.len() == 0 {
        Seq::empty()
    } else {
        match inserts.last() {
            Some(x) => stored(inserts.drop_last()).push(x),
            None => stored(inserts.drop_last()),
        }
    }
}

/// The id that the insert number `k` of `inserts` returned: the number of
/// values inserted up to it and with it, or `NULL_ID` for no value.
pub open spec fn insert_id<T>(inserts: Seq<Option<T>>, k: int) -> nat {
    match inserts[k] {
        Some(_) => stored(inserts.take(k)).len() + 1,
        None => 0,
    }
}

/// One more insert: what `insert` does to the values held.
pub proof fn lemma_stored_push<T>(inserts: Seq<Option<T>>, v: Option<T>)
    ensures
        stored(inserts.push(v)) == match v {
            Some(x) => stored(inserts).push(x),
            None => stored(inserts),
        },
        insert_id(inserts.push(v), inserts.len() as int) == match v {
            Some(_) => stored(inserts).len() + 1,
            None => 0,
        },
{
    assert(inserts.push(v).drop_last() =~= inserts);
    assert(inserts.push(v).take(inserts.len() as int) =~= inserts);
}

/// Fewer inserts hold no more values.
proof fn lemma_stored_grows<T>(inserts: Seq<Option<T>>, i: int, j: int)
    requires
        0 <= i <= j <= inserts.len(),
    ensures
        stored(inserts.take(i)).len() <= stored(inserts.take(j)).len(),
    decreases j - i,
{
    if i < j {
        lemma_stored_grows(inserts, i, j - 1);
        assert(inserts.take(j).drop_last() =~= inserts.take(j - 1));
    }
}

/// After any sequence of inserts into an empty map, each value inserted is
/// read back under the id its insert returned; those ids are above
/// `NULL_ID`, within the values held, and go up with each value inserted.
pub proof fn lemma_inserts_read_back<T>(inserts: Seq<Option<T>>, k: int)
    requires
        0 <= k < inserts.len(),
        inserts[k] is Some,
    ensures
        1 <= insert_id(inserts, k) <= stored(inserts).len(),
        stored(inserts)[insert_id(inserts, k) - 1] == inserts[k]->0,
        forall|k2: int| 0 <= k2 < k && (#[trigger] inserts[k2]) is Some ==> insert_id(inserts, k2) < insert_id(inserts, k),
    decreases inserts.len(),
{
    let init = inserts.drop_last();
    if k == inserts.len() - 1 {
        assert(init =~= inserts.take(k));
    } else {
        lemma_inserts_read_back(init, k);
        assert(init.take(k) =~= inserts.take(k));
        assert(init[k] == inserts[k]);
        assert forall|k2: int| 0 <= k2 < k && (#[trigger] inserts[k2]) is Some implies insert_id(inserts, k2) < insert_id(inserts, k) by {
            assert(init.take(k2) =~= inserts.take(k2));
            assert(init[k2] == inserts[k2]);
        }
    }
    assert forall|k2: int| 0 <= k2 < k && (#[trigger] inserts[k2]) is Some implies insert_id(inserts, k2) < insert_id(inserts, k) by {
        lemma_stored_grows(inserts, k2 + 1, k);
        assert(inserts.take(k2 + 1).drop_last() =~= inserts.take(k2));
    }
}

} // verus!
