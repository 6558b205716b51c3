//! The container: a vector of fixed length with a cursor that goes round it.

use core::ops::{Index, Range};
use core::slice::SliceIndex;
use vstd::prelude::*;
use vstd::slice::SliceIndexSpec;
use vstd::std_specs::iter::IteratorSpec;
use vstd::arithmetic::div_mod::{
    lemma_add_mod_noop_right,
    lemma_mod_add_multiples_vanish,
    lemma_small_mod,
};
use crate::error::CircularVecError;
use crate::laws::lemma_step_is_skip;
use crate::ring::Ring;

verus! {

/// A sequence of fixed length that is read round and round.
///
/// The elements are given once, at construction, and none is added or removed
/// afterwards. A cursor marks the element that the next read returns; each
/// read moves it one place forward, and from the last element it goes back to
/// the first. There is always an element to return, so a read gives a
/// reference and no `Option`.
pub struct CircularVec<T> {
    items: Vec<T>,
    index: usize,
}

impl<T> View for CircularVec<T> {
    type V = Ring<T>;

    closed spec fn view(&self) -> Ring<T> {
        Ring { items: self.items@, cursor: self.index as nat }
    }
}

impl<T> CircularVec<T> {
    #[verifier::type_invariant]
    spec fn cursor_in_bounds(self) -> bool {
        self.index < self.items.len()
    }

    /// Builds a circular sequence that holds `items` in the given order, with
    /// the cursor on the first of them. A sequence cannot be empty: without
    /// any element the call is refused with `InvalidArgument`.
    pub fn new(items: Vec<T>) -> (result: Result<Self, CircularVecError>)
        ensures
            match result {
                Ok(cv) => items@.len() > 0 && cv@ == Ring::fresh(items@) && cv@.wf(),
                Err(e) => items@.len() == 0 && e == CircularVecError::InvalidArgument,
            },
    {
        if items.len() == 0 {
            Err(CircularVecError::InvalidArgument)
        } else {
            Ok(CircularVec { items, index: 0 })
        }
    }

    /// Builds a circular sequence from all that `iter` yields, in that
    /// order, with the cursor on the first element. The source has to be
    /// finite: an iterator that keeps to the iterator laws, so that it ends,
    /// and that has a measure which shrinks with every item. One that yields
    /// nothing is refused with `InvalidArgument`.
    pub fn from_iter<I: Iterator<Item = T>>(iter: I) -> (result: Result<Self, CircularVecError>)
        requires
            iter.obeys_prophetic_iter_laws(),
            iter.decrease() is Some,
        ensures
            match result {
                Ok(cv) => iter.remaining().len() > 0 && cv@ == Ring::fresh(iter.remaining())
                    && cv@.wf(),
                Err(e) => iter.remaining().len() == 0 && e == CircularVecError::InvalidArgument,
            },
    {
        let mut iter = iter;
        let ghost source = iter.remaining();
        let mut items: Vec<T> = Vec::new();
        loop
            invariant
                iter.obeys_prophetic_iter_laws(),
                iter.decrease() is Some,
                items@ + iter.remaining() == source,
            ensures
                items@ == source,
            decreases iter.decrease()->0,
        {
            match iter.next() {
                Some(item) => {
                    items.push(item);
                },
                None => {
                    break ;
                },
            }
        }
        Self::new(items)
    }

    /// Returns the element under the cursor and moves the cursor one place
    /// forward.
    pub fn next(&mut self) -> (element: &T)
        ensures
            *element == old(self)@.current(),
            final(self)@ == old(self)@.step(),
            final(self)@.wf(),
    {
        proof {
            use_type_invariant(&*self);
        }
        let position = self.index;
        self.increment_index();
        &self.items[position]
    }

    /// Like [`next`](Self::next), but the element can be written through the
    /// reference that is returned. What is written stays at that position.
    pub fn next_mut(&mut self) -> (element: &mut T)
        ensures
            *element == old(self)@.current(),
            final(self)@ == old(self)@.store(*final(element)),
            final(self)@.wf(),
    {
        proof {
            use_type_invariant(&*self);
        }
        let position = self.index;
        self.increment_index();
        &mut self.items[position]
    }

    /// The number of elements. It is fixed at construction and never zero.
    pub fn len(&self) -> (len: usize)
        ensures
            len == self@.len(),
            len > 0,
    {
        proof {
            use_type_invariant(self);
        }
        self.items.len()
    }

    /// The absolute position of the element that the next read returns.
    pub fn cursor(&self) -> (cursor: usize)
        ensures
            cursor == self@.cursor,
            cursor < self@.len(),
    {
        proof {
            use_type_invariant(self);
        }
        self.index
    }

    /// The element at the absolute position `position`, wherever the cursor
    /// stands, or `IndexOutOfRange` where the sequence has no such position.
    pub fn get(&self, position: usize) -> (result: Result<&T, CircularVecError>)
        ensures
            match result {
                Ok(element) => position < self@.len() && *element == self@.items[position as int],
                Err(e) => position >= self@.len() && e == CircularVecError::IndexOutOfRange,
            },
    {
        if position < self.items.len() {
            Ok(&self.items[position])
        } else {
            Err(CircularVecError::IndexOutOfRange)
        }
    }

    /// The elements at the absolute positions from `range.start` up to, but
    /// without, `range.end`, or `IndexOutOfRange` where the range runs
    /// backwards or reaches past the last element.
    pub fn get_range(&self, range: Range<usize>) -> (result: Result<&[T], CircularVecError>)
        ensures
            match result {
                Ok(run) => range.start <= range.end <= self@.len()
                    && run@ == self@.items.subrange(range.start as int, range.end as int),
                Err(e) => !(range.start <= range.end <= self@.len())
                    && e == CircularVecError::IndexOutOfRange,
            },
    {
        if range.start <= range.end && range.end <= self.items.len() {
            Ok(&self.items[range])
        } else {
            Err(CircularVecError::IndexOutOfRange)
        }
    }

    /// Moves the cursor `n` places forward, as `n` reads would, without
    /// looking at the elements on the way. With `n == 0` nothing changes.
    pub fn skip(&mut self, n: usize)
        ensures
            final(self)@ == old(self)@.skip(n as nat),
            final(self)@.wf(),
    {
        proof {
            use_type_invariant(&*self);
        }
        let len = self.items.len();
        let shift = n % len;
        let room = len - self.index;
        proof {
            lemma_add_mod_noop_right(self.index as int, n as int, len as int);
            if shift < room {
                lemma_small_mod((self.index + shift) as nat, len as nat);
            } else {
                lemma_small_mod((shift - room) as nat, len as nat);
                lemma_mod_add_multiples_vanish(shift - room, len as int);
            }
        }
        self.index = if shift < room {
            self.index + shift
        } else {
            shift - room
        };
    }

    /// Moves the cursor one place forward, back to the first element from the
    /// last.
    fn increment_index(&mut self)
        ensures
            final(self)@ == old(self)@.step(),
    {
        proof {
            use_type_invariant(&*self);
            lemma_step_is_skip(self@);
        }
        self.index = (self.index + 1) % self.items.len();
    }
}

impl<T, I: SliceIndex<[T]>> vstd::std_specs::core::IndexSpecImpl<I> for CircularVec<T> {
    /// `index` is in bounds for the elements taken as a slice.
    open spec fn index_req(&self, index: &I) -> bool {
        forall|s: &[T]| #[trigger] s@ == self@.items ==> index.index_req(s)
    }
}

impl<T, I: SliceIndex<[T]>> Index<I> for CircularVec<T> {
    type Output = I::Output;

    /// The element, or the run of elements, at the absolute position `index`:
    /// what a slice of the elements gives for it. The cursor plays no part and
    /// stays where it is.
    fn index(&self, index: I) -> (output: &Self::Output)
        ensures
            exists|s: &[T]| #[trigger] s@ == self@.items
                && call_ensures(<I as SliceIndex<[T]>>::index, (index, s), output),
    {
        self.items.index(index)
    }
}

} // verus!
