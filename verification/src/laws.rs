//! What holds of every circular sequence, proved over its model.
//!
//! The contracts of `CircularVec` say what one call does to the [`Ring`] that
//! the container stands for. The lemmas here say what follows for calls made
//! one after the other.

use vstd::prelude::*;
use vstd::arithmetic::div_mod::{
    lemma_add_mod_noop,
    lemma_mod_add_multiples_vanish,
    lemma_mod_bound,
    lemma_mod_self_0,
    lemma_small_mod,
};
use crate::ring::{Op, Ring};

verus! {

/// Construction gives a well-formed ring exactly when there is an element.
pub proof fn lemma_fresh_wf<T>(items: Seq<T>)
    ensures
        Ring::fresh(items).wf() <==> items.len() > 0,
{
}

/// A read is a skip over one place: the cursor goes to the next position
/// modulo the number of elements.
pub proof fn lemma_step_is_skip<T>(ring: Ring<T>)
    requires
        ring.wf(),
    ensures
        ring.step() == ring.skip(1),
        ring.step().cursor == (ring.cursor + 1) % ring.len(),
{
    if ring.cursor + 1 < ring.len() {
        lemma_small_mod(ring.cursor + 1, ring.len());
    } else {
        lemma_mod_self_0(ring.len() as int);
    }
}

/// A skip over no place changes nothing.
pub proof fn lemma_skip_zero<T>(ring: Ring<T>)
    requires
        ring.wf(),
    ensures
        ring.skip(0) == ring,
{
    lemma_small_mod(ring.cursor, ring.len());
}

/// One skip after another is one skip over the sum.
pub proof fn lemma_skip_skip<T>(ring: Ring<T>, m: nat, n: nat)
    requires
        ring.wf(),
    ensures
        ring.skip(m).skip(n) == ring.skip(m + n),
{
    let len = ring.len() as int;
    let cursor = ring.cursor as int;
    assert(((cursor + m) % len + n) % len == (cursor + m + n) % len) by {
        lemma_add_mod_noop(cursor + m, n as int, len);
        lemma_add_mod_noop((cursor + m) % len, n as int, len);
        lemma_mod_bound(cursor + m, len);
        lemma_small_mod(((cursor + m) % len) as nat, len as nat);
    }
}

/// A skip once round the ring brings the cursor back to where it was.
pub proof fn lemma_skip_full_turn<T>(ring: Ring<T>)
    requires
        ring.wf(),
    ensures
        ring.skip(ring.len()) == ring,
{
    lemma_mod_add_multiples_vanish(ring.cursor as int, ring.len() as int);
    lemma_small_mod(ring.cursor, ring.len());
}

/// The cursor never leaves the sequence, and the sequence never changes its
/// length: a single call of any kind takes a well-formed ring to a
/// well-formed ring of the same length.
pub proof fn lemma_apply_wf<T>(ring: Ring<T>, op: Op<T>)
    requires
        ring.wf(),
    ensures
        ring.apply(op).wf(),
        ring.apply(op).len() == ring.len(),
{
    if let Op::Skip(n) = op {
        lemma_mod_bound((ring.cursor + n) as int, ring.len() as int);
    }
}

/// The cursor invariant: whatever calls are made and in whatever order, the
/// cursor addresses an element afterwards and the length is what it was.
pub proof fn lemma_run_wf<T>(ring: Ring<T>, ops: Seq<Op<T>>)
    requires
        ring.wf(),
    ensures
        ring.run(ops).wf(),
        ring.run(ops).len() == ring.len(),
    decreases ops.len(),
{
    if ops.len() > 0 {
        lemma_run_wf(ring, ops.drop_last());
        lemma_apply_wf(ring.run(ops.drop_last()), ops.last());
    }
}

/// Indexing independence: moving the cursor never reorders or changes the
/// elements. After any number of reads and skips, every position holds what
/// it held before.
pub proof fn lemma_moves_keep_items<T>(ring: Ring<T>, ops: Seq<Op<T>>)
    requires
        ring.wf(),
        forall|k: int| 0 <= k < ops.len() ==> (#[trigger] ops[k]).keeps_items(),
    ensures
        ring.run(ops).items == ring.items,
    decreases ops.len(),
{
    if ops.len() > 0 {
        let before = ops.drop_last();
        assert forall|k: int| 0 <= k < before.len() implies (#[trigger] before[k]).keeps_items() by {
            assert(before[k] == ops[k]);
        }
        lemma_moves_keep_items(ring, before);
        assert(ops.last() == ops[ops.len() - 1]);
    }
}

/// `n` reads in a row leave the ring where one skip over `n` places leaves
/// it.
pub proof fn lemma_steps_is_skip<T>(ring: Ring<T>, n: nat)
    requires
        ring.wf(),
    ensures
        ring.steps(n) == ring.skip(n),
    decreases n,
{
    if n == 0 {
        lemma_skip_zero(ring);
    } else {
        let rest = (n - 1) as nat;
        lemma_step_is_skip(ring);
        lemma_apply_wf(ring, Op::Read);
        lemma_steps_is_skip(ring.step(), rest);
        lemma_skip_skip(ring, 1, rest);
    }
}

/// Wrap-around: read after read, a ring gives its elements in the order in
/// which they were given and starts over after the last. The read that comes
/// after `i` reads of a freshly built ring returns the element at position
/// `i % n`, where `n` is the number of elements.
pub proof fn lemma_reads_wrap_around<T>(items: Seq<T>, i: nat)
    requires
        items.len() > 0,
    ensures
        Ring::fresh(items).steps(i).cursor == i % items.len(),
        Ring::fresh(items).steps(i).current() == items[(i % items.len()) as int],
{
    lemma_steps_is_skip(Ring::fresh(items), i);
}

/// The same from any state: after `i` reads the elements are what they were,
/// the cursor stands `i` places further on, counted round the ring, and the
/// next read returns the element there.
pub proof fn lemma_reads_from_cursor<T>(ring: Ring<T>, i: nat)
    requires
        ring.wf(),
    ensures
        ring.steps(i).items == ring.items,
        ring.steps(i).cursor == (ring.cursor + i) % ring.len(),
        ring.steps(i).current() == ring.items[((ring.cursor + i) % ring.len()) as int],
{
    lemma_steps_is_skip(ring, i);
}

/// Skip equivalence: a skip over `n` places followed by a read returns what
/// the last of `n + 1` reads returns, and leaves the ring in the same state.
pub proof fn lemma_skip_then_read<T>(ring: Ring<T>, n: nat)
    requires
        ring.wf(),
    ensures
        ring.skip(n).current() == ring.steps(n).current(),
        ring.skip(n).step() == ring.steps(n + 1),
{
    lemma_steps_is_skip(ring, n);
    lemma_steps_is_skip(ring, n + 1);
    lemma_apply_wf(ring, Op::Skip(n));
    lemma_step_is_skip(ring.skip(n));
    lemma_skip_skip(ring, n, 1);
}

/// A mutable read through which nothing new is written is a read.
pub proof fn lemma_store_current<T>(ring: Ring<T>)
    requires
        ring.wf(),
    ensures
        ring.store(ring.current()) == ring.step(),
{
    assert(ring.items.update(ring.cursor as int, ring.current()) =~= ring.items);
}

/// Mutation persistence: a value written through a mutable read stands at
/// the position where the cursor was, every other position holds what it
/// held, and the length is what it was.
pub proof fn lemma_store_persists<T>(ring: Ring<T>, value: T)
    requires
        ring.wf(),
    ensures
        ring.store(value).len() == ring.len(),
        ring.store(value).items[ring.cursor as int] == value,
        forall|i: int|
            0 <= i < ring.len() && i != ring.cursor ==> ring.store(value).items[i]
                == ring.items[i],
{
}

/// What was written is what later calls observe at that position, however
/// the cursor has moved in between: a read by position gives it, and so does
/// a read whenever the cursor has come back to the position.
pub proof fn lemma_store_observed<T>(ring: Ring<T>, value: T, ops: Seq<Op<T>>)
    requires
        ring.wf(),
        forall|k: int| 0 <= k < ops.len() ==> (#[trigger] ops[k]).keeps_items(),
    ensures
        ring.store(value).run(ops).items[ring.cursor as int] == value,
        ring.store(value).run(ops).cursor == ring.cursor ==> ring.store(value).run(ops).current()
            == value,
{
    lemma_apply_wf(ring, Op::Write(value));
    lemma_moves_keep_items(ring.store(value), ops);
}

/// After a write the reads come round to the written value: of the `n` reads
/// that follow, where `n` is the number of elements, the last returns it.
pub proof fn lemma_store_read_again<T>(ring: Ring<T>, value: T)
    requires
        ring.wf(),
    ensures
        ring.store(value).steps((ring.len() - 1) as nat).current() == value,
{
    let written = ring.store(value);
    let turn = (ring.len() - 1) as nat;
    lemma_apply_wf(ring, Op::Write(value));
    lemma_steps_is_skip(written, turn);
    lemma_step_is_skip(ring);
    lemma_skip_skip(ring, 1, turn);
    lemma_skip_full_turn(ring);
    assert(written.skip(turn).cursor == ring.skip(1).skip(turn).cursor);
}

} // verus!
