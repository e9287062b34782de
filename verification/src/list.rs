//! A simple singly linked list built by consing onto the front, with an
//! iterator that walks it without consuming it.

use vstd::prelude::*;

verus! {

/// A cons list: each node owns its data and the rest of the list.
pub enum List<T> {
    Node { data: T, next: Box<List<T>> },
    Nil,
}

/// The elements of a list, from its head to its tail.
pub open spec fn list_elems<T>(l: List<T>) -> Seq<T>
    decreases l,
{
    match l {
        List::Nil => Seq::empty(),
        List::Node { data, next } => seq![data] + list_elems(*next),
    }
}

impl<T> View for List<T> {
    type V = Seq<T>;

    open spec fn view(&self) -> Seq<T> {
        list_elems(*self)
    }
}

impl<T> List<T> {
    /// The empty list.
    pub fn new() -> (l: List<T>)
        ensures
            l@ == Seq::<T>::empty(),
    {
        List::Nil
    }

    /// Consumes the list and returns it with `data` prepended.
    pub fn cons(self, data: T) -> (l: List<T>)
        ensures
            l@ == seq![data] + self@,
    {
        List::Node { data, next: Box::new(self) }
    }

    /// An iterator over the list, front to back, that borrows rather than
    /// consumes it.
    pub fn iter<'a>(&'a self) -> (it: ListIter<'a, T>)
        ensures
            it.remaining() == self@,
    {
        ListIter { elm: self }
    }
}

/// A borrowing iterator over a `List`: holds the suffix not yet yielded.
pub struct ListIter<'a, T> {
    elm: &'a List<T>,
}

impl<'a, T> ListIter<'a, T> {
    /// The elements this iterator has not yielded yet.
    pub closed spec fn remaining(&self) -> Seq<T> {
        self.elm@
    }

    /// Yields a reference to the next element, front to back, or `None`
    /// once the list is exhausted.
    pub fn next(&mut self) -> (r: Option<&'a T>)
        ensures
            old(self).remaining().len() == 0 ==> r == None::<&'a T>
                && final(self).remaining() == old(self).remaining(),
            old(self).remaining().len() > 0 ==> (r matches Some(x)
                && *x == old(self).remaining()[0]
                && final(self).remaining() == old(self).remaining().drop_first()),
    {
        match self.elm {
            List::Node { data, next } => {
                self.elm = next;
                assert(seq![*data] + next@ == old(self).remaining());
                assert((seq![*data] + next@).drop_first() =~= next@);
                Some(data)
            },
            List::Nil => None,
        }
    }
}

} // verus!
