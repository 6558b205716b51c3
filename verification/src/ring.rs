//! The mathematical model of a circular sequence.
//!
//! A [`Ring`] is what a `CircularVec` stands for in contracts: the elements in
//! the order in which they were given, and the position of the element that
//! the next read returns. Every operation of the container is one of the
//! transitions below.

use vstd::prelude::*;

verus! {

/// One call that changes a circular sequence, as the model sees it.
pub enum Op<T> {
    /// A read.
    Read,
    /// A mutable read through which the given value was written.
    Write(T),
    /// A skip over the given number of places.
    Skip(nat),
}

impl<T> Op<T> {
    /// The call moves the cursor and leaves every element as it is.
    pub open spec fn keeps_items(self) -> bool {
        !(self is Write)
    }
}

/// The elements of a circular sequence and the position of its cursor.
pub struct Ring<T> {
    /// The elements, in the order in which they were given.
    pub items: Seq<T>,
    /// The position of the element that the next read returns.
    pub cursor: nat,
}

impl<T> Ring<T> {
    /// The state right after construction: all of `items`, cursor on the first.
    pub open spec fn fresh(items: Seq<T>) -> Self {
        Ring { items, cursor: 0 }
    }

    /// The cursor addresses an element. A well-formed ring is never empty.
    pub open spec fn wf(self) -> bool {
        self.cursor < self.items.len()
    }

    /// The number of elements.
    pub open spec fn len(self) -> nat {
        self.items.len()
    }

    /// The element under the cursor: the one that the next read returns.
    pub open spec fn current(self) -> T
        recommends
            self.wf(),
    {
        self.items[self.cursor as int]
    }

    /// The state after the cursor has moved `n` places forward, starting again
    /// at the first element whenever it has passed the last.
    pub open spec fn skip(self, n: nat) -> Self
        recommends
            self.wf(),
    {
        Ring { items: self.items, cursor: (self.cursor + n) % self.items.len() }
    }

    /// The state after one read: the cursor stands on the next element, or on
    /// the first where it stood on the last.
    pub open spec fn step(self) -> Self
        recommends
            self.wf(),
    {
        Ring {
            items: self.items,
            cursor: if self.cursor + 1 < self.items.len() {
                self.cursor + 1
            } else {
                0
            },
        }
    }

    /// The state after `n` reads, one after the other.
    pub open spec fn steps(self, n: nat) -> Self
        recommends
            self.wf(),
        decreases n,
    {
        if n == 0 {
            self
        } else {
            self.step().steps((n - 1) as nat)
        }
    }

    /// The state after one mutable read through which `value` was written:
    /// `value` stands where the cursor was, and the cursor has moved on.
    pub open spec fn store(self, value: T) -> Self
        recommends
            self.wf(),
    {
        Ring { items: self.items.update(self.cursor as int, value), cursor: self.step().cursor }
    }

    /// The state after the call `op`.
    pub open spec fn apply(self, op: Op<T>) -> Self
        recommends
            self.wf(),
    {
        match op {
            Op::Read => self.step(),
            Op::Write(value) => self.store(value),
            Op::Skip(n) => self.skip(n),
        }
    }

    /// The state after the calls `ops`, made in that order.
    pub open spec fn run(self, ops: Seq<Op<T>>) -> Self
        recommends
            self.wf(),
        decreases ops.len(),
    {
        if ops.len() == 0 {
            self
        } else {
            self.run(ops.drop_last()).apply(ops.last())
        }
    }
}

} // verus!
