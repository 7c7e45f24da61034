//! A view of a slice from which elements are consumed at either end.

use vstd::prelude::*;

verus! {

/// The part of a slice that has not been consumed yet.
pub struct SliceView<'a, T: 'a + Sized>(pub &'a [T]);

impl<'a, T> SliceView<'a, T> {
    /// The first element, if there is one.
    pub fn first(&self) -> (r: Option<&'a T>)
        ensures
            r == (if self.0@.len() > 0 { Some(&self.0@[0]) } else { None }),
    {
        self.0.first()
    }

    /// The last element, if there is one.
    pub fn last(&self) -> (r: Option<&'a T>)
        ensures
            r == (if self.0@.len() > 0 { Some(&self.0@.last()) } else { None }),
    {
        self.0.last()
    }

    /// Drops the first element.
    pub fn consume_front(&mut self)
        requires
            old(self).0@.len() > 0,
        ensures
            final(self).0@ == old(self).0@.drop_first(),
    {
        let s = self.0;
        self.0 = &s[1..s.len()];
    }

    /// Drops the last element.
    pub fn consume_back(&mut self)
        requires
            old(self).0@.len() > 0,
        ensures
            final(self).0@ == old(self).0@.drop_last(),
    {
        let s = self.0;
        self.0 = &s[0..(s.len() - 1)];
    }
}

/// Takes elements one at a time from one end of a view.
pub trait Consumer<'a, T: 'a> {
    /// The elements left, in the order they are taken.
    spec fn remaining(&self) -> Seq<T>;

    /// The next element, if there is one.
    fn peek(&self) -> (r: Option<&'a T>)
        ensures
            r == (if self.remaining().len() > 0 { Some(&self.remaining()[0]) } else { None });

    /// Takes the next element.
    fn consume(&mut self)
        requires
            old(self).remaining().len() > 0,
        ensures
            final(self).remaining() == old(self).remaining().drop_first();
}

/// Takes elements from the front of a view.
pub struct ForwardConsumer<'v, 'a: 'v, T: 'a>(pub &'v mut SliceView<'a, T>);

impl<'v, 'a, T> Consumer<'a, T> for ForwardConsumer<'v, 'a, T> {
    open spec fn remaining(&self) -> Seq<T> {
        self.0.0@
    }

    fn peek(&self) -> (r: Option<&'a T>) {
        self.0.first()
    }

    fn consume(&mut self) {
        self.0.consume_front();
    }
}

/// Takes elements from the back of a view.
pub struct ReverseConsumer<'v, 'a: 'v, T: 'a>(pub &'v mut SliceView<'a, T>);

impl<'v, 'a, T> Consumer<'a, T> for ReverseConsumer<'v, 'a, T> {
    open spec fn remaining(&self) -> Seq<T> {
        self.0.0@.reverse()
    }

    fn peek(&self) -> (r: Option<&'a T>) {
        self.0.last()
    }

    fn consume(&mut self) {
        let ghost before = self.0.0@;
        self.0.consume_back();
        assert(self.0.0@.reverse() =~= before.reverse().drop_first());
    }
}

} // verus!
