//! Buffered cursor: wraps any pull-based sequence, memoizes pulled items,
//! and exposes a movable read position plus a stack of save points for
//! nested speculative reading.

use vstd::prelude::*;

use crate::read_opt;

verus! {

/// Mathematical model of a buffered cursor: the items pulled so far, the
/// read position, the stack of saved positions, and whether the underlying
/// source has reported exhaustion.
pub struct CursorState<T> {
    pub buf: Seq<T>,
    pub pos: usize,
    pub stack: Seq<usize>,
    pub done: bool,
}

/// Well-formedness of a cursor: the position and every saved position lie
/// within the materialized buffer (one past its end at most).
pub open spec fn cursor_inv<T>(s: CursorState<T>) -> bool {
    &&& s.pos <= s.buf.len()
    &&& (forall|k: int| 0 <= k < s.stack.len() ==> (#[trigger] s.stack[k]) <= s.buf.len())
}

/// How one `save_loc` call changes the cursor: the current position is
/// pushed on the checkpoint stack and nothing else moves.
pub open spec fn save_rel<T>(pre: CursorState<T>, post: CursorState<T>) -> bool {
    &&& post.buf == pre.buf
    &&& post.pos == pre.pos
    &&& post.stack == pre.stack.push(pre.pos)
    &&& post.done == pre.done
}

/// How one `load_loc` call changes the cursor: the most recent checkpoint is
/// popped and becomes the position; no buffered item is discarded.
pub open spec fn load_rel<T>(pre: CursorState<T>, post: CursorState<T>) -> bool {
    &&& pre.stack.len() > 0
    &&& post.buf == pre.buf
    &&& post.pos == pre.stack.last()
    &&& post.stack == pre.stack.drop_last()
    &&& post.done == pre.done
}

/// How one `discard_loc` call changes the cursor: the most recent checkpoint
/// is popped and forgotten; the position keeps the progress made since it.
pub open spec fn discard_rel<T>(pre: CursorState<T>, post: CursorState<T>) -> bool {
    &&& pre.stack.len() > 0
    &&& post.buf == pre.buf
    &&& post.pos == pre.pos
    &&& post.stack == pre.stack.drop_last()
    &&& post.done == pre.done
}

/// How one `back` call changes the cursor: the position steps back by one,
/// making the most recently returned item readable again.
pub open spec fn back_rel<T>(pre: CursorState<T>, post: CursorState<T>) -> bool {
    &&& pre.pos > 0
    &&& post.buf == pre.buf
    &&& post.pos == pre.pos - 1
    &&& post.stack == pre.stack
    &&& post.done == pre.done
}

/// How one `next` call changes the cursor. On success the item at the old
/// position is returned and the position advances; the buffer either already
/// held that item or grows by exactly that item. On failure nothing moves:
/// the position was at the buffer's end and the source is exhausted.
pub open spec fn next_rel<T>(pre: CursorState<T>, post: CursorState<T>, r: Option<T>) -> bool {
    &&& post.stack == pre.stack
    &&& pre.buf.is_prefix_of(post.buf)
    &&& (pre.done ==> post.buf == pre.buf)
    &&& match r {
        Some(v) => {
            &&& pre.pos < post.buf.len()
            &&& post.buf[pre.pos as int] == v
            &&& post.pos == pre.pos + 1
            &&& post.done == pre.done
            &&& post.buf == (if pre.pos < pre.buf.len() {
                pre.buf
            } else {
                pre.buf.push(v)
            })
        },
        None => {
            &&& post.buf == pre.buf
            &&& post.pos == pre.pos
            &&& pre.pos == pre.buf.len()
            &&& post.done
        },
    }
}

/// How one `get` call changes the cursor. Items are pulled and appended
/// until index `i` is materialized or the source is exhausted; the position
/// and the checkpoint stack never move, and buffered items never change.
pub open spec fn get_rel<T>(pre: CursorState<T>, post: CursorState<T>, i: int, r: Option<T>) -> bool {
    &&& post.pos == pre.pos
    &&& post.stack == pre.stack
    &&& pre.buf.is_prefix_of(post.buf)
    &&& (pre.done ==> post.buf == pre.buf)
    &&& match r {
        Some(v) => {
            &&& 0 <= i < post.buf.len()
            &&& post.buf[i] == v
            &&& post.done == pre.done
            &&& post.buf.len() == (if i < pre.buf.len() {
                pre.buf.len()
            } else {
                (i + 1) as nat
            })
        },
        None => {
            &&& post.buf.len() <= i
            &&& post.done
        },
    }
}

/// A buffered, backtracking cursor over the items of any iterator. Pulled
/// items are memoized in an append-only buffer, so moving the read position
/// backwards never re-invokes the underlying source.
#[verifier::reject_recursive_types(T)]
pub struct Keeper<T, I: Iterator<Item = T>> {
    iter: I,
    buffer: Vec<T>,
    index: usize,
    index_stack: Vec<usize>,
    done: bool,
}

impl<T, I: Iterator<Item = T>> View for Keeper<T, I> {
    type V = CursorState<T>;

    closed spec fn view(&self) -> CursorState<T> {
        CursorState { buf: self.buffer@, pos: self.index, stack: self.index_stack@, done: self.done }
    }
}

/// Carries the checkpoint-stack bound over an operation that keeps the
/// stack and can only grow the buffer.
proof fn lemma_inv_transfer<T>(a: CursorState<T>, b: CursorState<T>)
    requires
        cursor_inv(a),
        b.stack == a.stack,
        a.buf.len() <= b.buf.len(),
        b.pos <= b.buf.len(),
    ensures
        cursor_inv(b),
{
    assert forall|k: int| 0 <= k < b.stack.len() implies (#[trigger] b.stack[k]) <= b.buf.len() by {
        assert(a.stack[k] <= a.buf.len());
    }
}

/// Carries the checkpoint-stack bound over a push of the current position.
proof fn lemma_inv_after_save<T>(a: CursorState<T>, b: CursorState<T>)
    requires
        cursor_inv(a),
        b.stack == a.stack.push(a.pos),
        b.buf == a.buf,
        b.pos == a.pos,
    ensures
        cursor_inv(b),
{
    assert forall|k: int| 0 <= k < b.stack.len() implies (#[trigger] b.stack[k]) <= b.buf.len() by {
        if k < a.stack.len() {
            assert(a.stack[k] <= a.buf.len());
        } else {
            assert(b.stack[k] == a.pos);
        }
    }
}

/// Carries the checkpoint-stack bound over a pop.
proof fn lemma_inv_after_pop<T>(a: CursorState<T>, b: CursorState<T>)
    requires
        cursor_inv(a),
        a.stack.len() > 0,
        b.stack == a.stack.drop_last(),
        b.buf == a.buf,
        b.pos <= b.buf.len(),
    ensures
        cursor_inv(b),
{
    assert forall|k: int| 0 <= k < b.stack.len() implies (#[trigger] b.stack[k]) <= b.buf.len() by {
        assert(a.stack[k] <= a.buf.len());
    }
}

impl<T, I: Iterator<Item = T>> Keeper<T, I> {
    /// Creates a cursor over `iter` with an empty buffer, the position at 0
    /// and no outstanding checkpoints.
    pub fn new(iter: I) -> (r: Self)
        ensures
            r@.buf.len() == 0,
            r@.pos == 0,
            r@.stack.len() == 0,
            !r@.done,
            cursor_inv(r@),
    {
        Keeper { iter, buffer: Vec::new(), index: 0, index_stack: Vec::new(), done: false }
    }

    /// Pulls from the source and appends to the buffer until index `i` is
    /// materialized or the source reports exhaustion; reports whether the
    /// buffer now covers index `i`.
    fn materialize(&mut self, i: usize) -> (ok: bool)
        requires
            cursor_inv(old(self)@),
        ensures
            cursor_inv(final(self)@),
            final(self)@.pos == old(self)@.pos,
            final(self)@.stack == old(self)@.stack,
            old(self)@.buf.is_prefix_of(final(self)@.buf),
            old(self)@.done ==> final(self)@.buf == old(self)@.buf,
            ok <==> i < final(self)@.buf.len(),
            ok ==> final(self)@.done == old(self)@.done && final(self)@.buf.len() == (
            if i < old(self)@.buf.len() {
                old(self)@.buf.len()
            } else {
                (i + 1) as nat
            }),
            !ok ==> final(self)@.done && final(self)@.buf.len() <= i,
    {
        while self.buffer.len() <= i && !self.done
            invariant
                cursor_inv(self@),
                self@.pos == old(self)@.pos,
                self@.stack == old(self)@.stack,
                old(self)@.buf.is_prefix_of(self@.buf),
                old(self)@.done ==> self@.done && self@.buf == old(self)@.buf,
                self@.done ==> old(self)@.done || self@.buf.len() <= i,
                self@.buf.len() > i ==> self@.buf.len() == (if i < old(self)@.buf.len() {
                    old(self)@.buf.len()
                } else {
                    (i + 1) as nat
                }),
            decreases i + 1 - self.buffer.len() + (if self.done {
                0int
            } else {
                1int
            }),
        {
            let ghost entry = self@;
            match self.iter.next() {
                Some(v) => {
                    self.buffer.push(v);
                },
                None => {
                    self.done = true;
                },
            }
            proof {
                lemma_inv_transfer(entry, self@);
            }
        }
        i < self.buffer.len()
    }

    /// Pushes the current read position onto the checkpoint stack.
    pub fn save_loc(&mut self)
        requires
            cursor_inv(old(self)@),
        ensures
            cursor_inv(final(self)@),
            save_rel(old(self)@, final(self)@),
    {
        self.index_stack.push(self.index);
        proof {
            lemma_inv_after_save(old(self)@, self@);
        }
    }

    /// Pops the checkpoint stack and rewinds the read position to the popped
    /// value; no buffered item is discarded. The stack must not be empty:
    /// calling this without a matching `save_loc` is a caller bug.
    pub fn load_loc(&mut self)
        requires
            cursor_inv(old(self)@),
            old(self)@.stack.len() > 0,
        ensures
            cursor_inv(final(self)@),
            load_rel(old(self)@, final(self)@),
    {
        match self.index_stack.pop() {
            Some(loc) => {
                self.index = loc;
            },
            None => {
                // Excluded by the precondition; aborts an unruly caller.
                vstd::pervasive::unreached::<()>();
            },
        }
        proof {
            assert(old(self)@.stack.last() <= old(self)@.buf.len());
            lemma_inv_after_pop(old(self)@, self@);
        }
    }

    /// Pops the checkpoint stack without moving the read position, committing
    /// to the progress made since the matching `save_loc`. The stack must not
    /// be empty: calling this without a matching `save_loc` is a caller bug.
    pub fn discard_loc(&mut self)
        requires
            cursor_inv(old(self)@),
            old(self)@.stack.len() > 0,
        ensures
            cursor_inv(final(self)@),
            discard_rel(old(self)@, final(self)@),
    {
        match self.index_stack.pop() {
            Some(_) => {
            },
            None => {
                // Excluded by the precondition; aborts an unruly caller.
                vstd::pervasive::unreached::<()>();
            },
        }
        proof {
            lemma_inv_after_pop(old(self)@, self@);
        }
    }

    /// Returns the item at the current position and advances by one, pulling
    /// from the source if that item was never materialized. Once the source
    /// is exhausted and no buffered item remains at the position, returns
    /// nothing and does not advance.
    pub fn next(&mut self) -> (r: Option<&T>)
        requires
            cursor_inv(old(self)@),
        ensures
            cursor_inv(final(self)@),
            next_rel(old(self)@, final(self)@, read_opt(r)),
    {
        let i = self.index;
        if self.materialize(i) {
            // `i` lies below the buffer's length, a machine integer, so the
            // increment cannot overflow.
            let n = self.buffer.len();
            assert(i < n);
            self.index = i + 1;
            proof {
                if i >= old(self)@.buf.len() {
                    assert(self@.buf =~= old(self)@.buf.push(self@.buf[i as int]));
                } else {
                    assert(self@.buf =~= old(self)@.buf);
                }
                lemma_inv_transfer(old(self)@, self@);
            }
            Some(&self.buffer[i])
        } else {
            proof {
                assert(self@.buf =~= old(self)@.buf);
            }
            None
        }
    }

    /// Moves the read position back by one, making the most recently
    /// returned item available again. The position must not be 0: rewinding
    /// past the start is a caller bug.
    pub fn back(&mut self)
        requires
            cursor_inv(old(self)@),
            old(self)@.pos > 0,
        ensures
            cursor_inv(final(self)@),
            back_rel(old(self)@, final(self)@),
    {
        if self.index == 0 {
            // Excluded by the precondition; aborts an unruly caller.
            vstd::pervasive::unreached::<()>();
        }
        self.index = self.index - 1;
        proof {
            lemma_inv_transfer(old(self)@, self@);
        }
    }

    /// Random access by absolute buffer index: pulls from the source until
    /// index `i` is materialized, then returns a reference to that item, or
    /// nothing once the source is exhausted before reaching `i`. The read
    /// position does not move.
    pub fn get(&mut self, i: usize) -> (r: Option<&T>)
        requires
            cursor_inv(old(self)@),
        ensures
            cursor_inv(final(self)@),
            get_rel(old(self)@, final(self)@, i as int, read_opt(r)),
    {
        if self.materialize(i) {
            Some(&self.buffer[i])
        } else {
            None
        }
    }

    /// Random access like `get`, returning a mutable reference: the slot at
    /// index `i` stays materialized and only its value may change through the
    /// returned reference. Every other buffered item is left as it was.
    pub fn get_mut(&mut self, i: usize) -> (r: Option<&mut T>)
        requires
            cursor_inv(old(self)@),
        ensures
            cursor_inv(final(self)@),
            final(self)@.pos == old(self)@.pos,
            final(self)@.stack == old(self)@.stack,
            old(self)@.done ==> final(self)@.done && final(self)@.buf.len() == old(self)@.buf.len(),
            r is None ==> final(self)@.done && final(self)@.buf.len() <= i
                && old(self)@.buf.is_prefix_of(final(self)@.buf),
            r is Some ==> i < final(self)@.buf.len() && final(self)@.done == old(self)@.done
                && final(self)@.buf.len() == (if i < old(self)@.buf.len() {
                old(self)@.buf.len()
            } else {
                (i + 1) as nat
            }) && final(self)@.buf[i as int] == *final(r.unwrap()) && (i < old(self)@.buf.len()
                ==> *r.unwrap() == old(self)@.buf[i as int]) && (forall|j: int|
                0 <= j < final(self)@.buf.len() && j != i && j < old(self)@.buf.len()
                    ==> final(self)@.buf[j] == old(self)@.buf[j]),
    {
        if self.materialize(i) {
            Some(&mut self.buffer[i])
        } else {
            None
        }
    }
}

/// The item a read yields, given the materialized buffer and an index: the
/// buffered item there, or nothing when the index lies beyond the buffer.
pub open spec fn item_at<T>(buf: Seq<T>, i: int) -> Option<T> {
    if 0 <= i < buf.len() {
        Some(buf[i])
    } else {
        None
    }
}

/// Law: `back` followed by `next` replays the item that the previous `next`
/// returned, and leaves the cursor exactly where it stood after that
/// previous `next`.
pub proof fn lemma_back_then_next_replays<T>(
    s0: CursorState<T>,
    s1: CursorState<T>,
    s2: CursorState<T>,
    s3: CursorState<T>,
    v: T,
    r: Option<T>,
)
    requires
        next_rel(s0, s1, Some(v)),
        back_rel(s1, s2),
        next_rel(s2, s3, r),
    ensures
        r == Some(v),
        s3.pos == s1.pos,
        s3.buf == s1.buf,
{
    assert(s2.pos < s2.buf.len());
    if r is None {
        assert(s2.pos == s2.buf.len());
    }
}

/// Law: after `save_loc`, any two reads and a `load_loc`, the next read
/// returns exactly what the first read after the `save_loc` returned: a full
/// rewind restores the exact prior reading.
pub proof fn lemma_rewind_replays<T>(
    s0: CursorState<T>,
    s1: CursorState<T>,
    s2: CursorState<T>,
    s3: CursorState<T>,
    s4: CursorState<T>,
    s5: CursorState<T>,
    r1: Option<T>,
    r2: Option<T>,
    r3: Option<T>,
)
    requires
        save_rel(s0, s1),
        next_rel(s1, s2, r1),
        next_rel(s2, s3, r2),
        load_rel(s3, s4),
        next_rel(s4, s5, r3),
    ensures
        r3 == r1,
{
    assert(s4.pos == s0.pos);
    match r1 {
        Some(v) => {
            assert(s2.buf[s0.pos as int] == v);
            assert(s4.buf[s0.pos as int] == v);
            assert(r3 is Some);
        },
        None => {
            assert(s2.done && s2.pos == s2.buf.len());
            assert(r2 is None);
            assert(s4.done && s4.pos == s4.buf.len());
            assert(r3 is None);
        },
    }
}

/// Law: checkpoints nest strictly. With an outer and an inner `save_loc`
/// outstanding, `discard_loc` drops only the inner checkpoint, and the
/// following `load_loc` restores the position saved by the outer one.
pub proof fn lemma_nested_checkpoints<T>(
    s0: CursorState<T>,
    s1: CursorState<T>,
    s2: CursorState<T>,
    s3: CursorState<T>,
    s4: CursorState<T>,
    s5: CursorState<T>,
    s6: CursorState<T>,
    r1: Option<T>,
    r2: Option<T>,
)
    requires
        save_rel(s0, s1),
        next_rel(s1, s2, r1),
        save_rel(s2, s3),
        next_rel(s3, s4, r2),
        discard_rel(s4, s5),
        load_rel(s5, s6),
    ensures
        s6.pos == s0.pos,
        s6.stack == s0.stack,
{
    assert(s4.stack == s0.stack.push(s0.pos).push(s2.pos));
    assert(s5.stack =~= s0.stack.push(s0.pos));
    assert(s6.stack =~= s0.stack);
}

/// Law: exhaustion is stable. Once `get` has answered nothing for index `i`,
/// a later `get` at any index at least `i` also answers nothing and leaves
/// the cursor untouched: there is no side effect and no partial re-pull.
pub proof fn lemma_exhaustion_is_stable<T>(
    s0: CursorState<T>,
    s1: CursorState<T>,
    s2: CursorState<T>,
    i: int,
    j: int,
    r: Option<T>,
)
    requires
        get_rel(s0, s1, i, None::<T>),
        get_rel(s1, s2, j, r),
        i <= j,
    ensures
        r is None,
        s2.buf == s1.buf,
        s2.pos == s1.pos,
        s2.stack == s1.stack,
        s2.done == s1.done,
{
    if r is Some {
        assert(j < s2.buf.len() && s2.buf.len() == s1.buf.len());
    }
}

/// Law: every read is a lookup in the materialized buffer. `get` returns
/// exactly the buffer's item at the requested index once materialization has
/// run its course.
pub proof fn lemma_get_is_buffer_lookup<T>(
    pre: CursorState<T>,
    post: CursorState<T>,
    i: int,
    r: Option<T>,
)
    requires
        get_rel(pre, post, i, r),
    ensures
        r == item_at(post.buf, i),
{
}

/// Law: `next` is the same lookup at the current position: it returns the
/// buffer's item at the old position once materialization has run its
/// course, and advances exactly when an item was there.
pub proof fn lemma_next_is_buffer_lookup<T>(pre: CursorState<T>, post: CursorState<T>, r: Option<T>)
    requires
        next_rel(pre, post, r),
    ensures
        r == item_at(post.buf, pre.pos as int),
        r is Some ==> post.pos == pre.pos + 1,
        r is None ==> post.pos == pre.pos,
{
}

/// Law: the buffer is a cache, not a queue. Whatever operations run in
/// between, a buffered item never changes, so reads of the same index in any
/// order see the same value as materializing strictly in sequence.
pub proof fn lemma_buffer_is_stable<T>(a: Seq<T>, b: Seq<T>, i: int)
    requires
        a.is_prefix_of(b),
        0 <= i < a.len(),
    ensures
        item_at(b, i) == item_at(a, i),
{
    assert(a[i] == b[i]);
}

} // verus!
