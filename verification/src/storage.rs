//! Slot storage: an arena that hands out stable handles to inserted values
//! and reuses freed slots in last-freed-first order.

use vstd::prelude::*;

verus! {

/// Mathematical model of a slot storage: the ordered sequence of slots, each
/// occupied or empty, and the stack of empty-slot indices available for reuse.
pub struct StorageState<T> {
    pub slots: Seq<Option<T>>,
    pub free: Seq<usize>,
}

/// Holds when some entry of the free stack equals the slot index `j`.
pub open spec fn on_free_stack(free: Seq<usize>, j: int) -> bool {
    exists|k: int| 0 <= k < free.len() && free[k] == j
}

/// Well-formedness of a storage: every index on the free stack names an empty
/// slot, every empty slot is on the free stack, and no index appears twice.
pub open spec fn storage_inv<T>(s: StorageState<T>) -> bool {
    &&& (forall|k: int|
        0 <= k < s.free.len() ==> (#[trigger] s.free[k]) < s.slots.len()
            && s.slots[s.free[k] as int] is None)
    &&& (forall|j: int|
        0 <= j < s.slots.len() && (#[trigger] s.slots[j]) is None ==> on_free_stack(s.free, j))
    &&& (forall|k1: int, k2: int|
        #![trigger s.free[k1], s.free[k2]]
        0 <= k1 < s.free.len() && 0 <= k2 < s.free.len() && k1 != k2 ==> s.free[k1] != s.free[k2])
}

/// The value held by the slot a handle with index `id` refers to, or nothing
/// when that slot is empty or was never allocated.
pub open spec fn slot_value<T>(s: StorageState<T>, id: usize) -> Option<T> {
    if id < s.slots.len() {
        s.slots[id as int]
    } else {
        None
    }
}

/// How one `add` call changes the storage: the most recently freed slot is
/// reused when one exists, otherwise a new slot is appended; `id` is the
/// index carried by the returned handle.
pub open spec fn add_rel<T>(pre: StorageState<T>, post: StorageState<T>, item: T, id: usize) -> bool {
    if pre.free.len() > 0 {
        &&& id == pre.free.last()
        &&& id < pre.slots.len()
        &&& pre.slots[id as int] is None
        &&& post.slots == pre.slots.update(id as int, Some(item))
        &&& post.free == pre.free.drop_last()
    } else {
        &&& id == pre.slots.len()
        &&& post.slots == pre.slots.push(Some(item))
        &&& post.free == pre.free
    }
}

/// How one `remove` call changes the storage: an occupied slot is emptied,
/// its value returned and its index pushed on the free stack; a handle to an
/// empty or never-allocated slot returns nothing and changes nothing.
pub open spec fn remove_rel<T>(
    pre: StorageState<T>,
    post: StorageState<T>,
    id: usize,
    r: Option<T>,
) -> bool {
    match slot_value(pre, id) {
        Some(v) => {
            &&& r == Some(v)
            &&& post.slots == pre.slots.update(id as int, None::<T>)
            &&& post.free == pre.free.push(id)
        },
        None => {
            &&& r is None
            &&& post.slots == pre.slots
            &&& post.free == pre.free
        },
    }
}

/// An opaque, cheaply copyable reference to a storage slot: a slot index
/// tagged at compile time with the stored value's type. Carries no ownership.
pub struct Id<T> {
    _marker: core::marker::PhantomData<T>,
    id: usize,
}

impl<T> View for Id<T> {
    type V = usize;

    closed spec fn view(&self) -> usize {
        self.id
    }
}

impl<T> Id<T> {
    fn new(id: usize) -> (r: Self)
        ensures
            r@ == id,
    {
        Id { _marker: core::marker::PhantomData, id }
    }
}

impl<T> Clone for Id<T> {
    fn clone(&self) -> (r: Self)
        ensures
            r@ == self@,
    {
        Id { _marker: core::marker::PhantomData, id: self.id }
    }
}

impl<T> Copy for Id<T> {

}

/// An arena of slots that hands out a stable `Id` for each inserted value and
/// reuses freed slots in last-freed-first order.
pub struct Storage<T> {
    inner: Vec<Option<T>>,
    deleted: Vec<usize>,
}

impl<T> View for Storage<T> {
    type V = StorageState<T>;

    closed spec fn view(&self) -> StorageState<T> {
        StorageState { slots: self.inner@, free: self.deleted@ }
    }
}

impl<T> Storage<T> {
    /// Creates an empty storage: no slots, nothing to reuse.
    pub fn new() -> (r: Self)
        ensures
            r@.slots.len() == 0,
            r@.free.len() == 0,
            storage_inv(r@),
    {
        Storage { inner: Vec::new(), deleted: Vec::new() }
    }

    /// Stores `item` and returns a handle for it, reusing the most recently
    /// freed slot when one exists and appending a new slot otherwise.
    pub fn add(&mut self, item: T) -> (r: Id<T>)
        requires
            storage_inv(old(self)@),
        ensures
            storage_inv(final(self)@),
            add_rel(old(self)@, final(self)@, item, r@),
    {
        match self.deleted.pop() {
            Some(id) => {
                proof {
                    let pre = old(self)@;
                    assert(pre.free[pre.free.len() - 1] < pre.slots.len());
                }
                let slot = &mut self.inner[id];
                *slot = Some(item);
                proof {
                    lemma_inv_after_fill(old(self)@, self@, id);
                }
                Id::new(id)
            },
            None => {
                let id = self.inner.len();
                self.inner.push(Some(item));
                proof {
                    lemma_inv_after_append(old(self)@, self@);
                }
                Id::new(id)
            },
        }
    }

    /// Empties the slot `id` refers to and returns the removed value, or
    /// returns nothing when that slot is already empty or never existed.
    /// Removing the same handle twice is a no-op the second time.
    pub fn remove(&mut self, id: Id<T>) -> (r: Option<T>)
        requires
            storage_inv(old(self)@),
        ensures
            storage_inv(final(self)@),
            remove_rel(old(self)@, final(self)@, id@, r),
    {
        if id.id < self.inner.len() {
            let slot = &mut self.inner[id.id];
            match slot.take() {
                Some(v) => {
                    self.deleted.push(id.id);
                    proof {
                        lemma_inv_after_clear(old(self)@, self@, id.id);
                    }
                    Some(v)
                },
                None => {
                    proof {
                        assert(self@.slots =~= old(self)@.slots);
                    }
                    None
                },
            }
        } else {
            None
        }
    }

    /// Returns a reference to the value in the slot `id` refers to, or
    /// nothing when that slot is empty or never existed.
    pub fn get(&self, id: Id<T>) -> (r: Option<&T>)
        ensures
            crate::read_opt(r) == slot_value(self@, id@),
    {
        if id.id < self.inner.len() {
            self.inner[id.id].as_ref()
        } else {
            None
        }
    }

    /// Returns a mutable reference to the value in the slot `id` refers to,
    /// or nothing when that slot is empty or never existed. The slot stays
    /// occupied; only its value may change through the returned reference.
    pub fn get_mut(&mut self, id: Id<T>) -> (r: Option<&mut T>)
        requires
            storage_inv(old(self)@),
        ensures
            storage_inv(final(self)@),
            r is Some <==> slot_value(old(self)@, id@) is Some,
            r is Some ==> slot_value(old(self)@, id@) == Some(*r.unwrap())
                && final(self)@.slots == old(self)@.slots.update(id@ as int, Some(*final(r.unwrap())))
                && final(self)@.free == old(self)@.free,
            r is None ==> final(self)@.slots == old(self)@.slots && final(self)@.free == old(
                self,
            )@.free,
    {
        if id.id < self.inner.len() {
            let slot = &mut self.inner[id.id];
            slot.as_mut()
        } else {
            None
        }
    }
}

/// Filling the most recently freed slot preserves the free-list invariant.
proof fn lemma_inv_after_fill<T>(pre: StorageState<T>, post: StorageState<T>, id: usize)
    requires
        storage_inv(pre),
        pre.free.len() > 0,
        id == pre.free.last(),
        post.slots == pre.slots.update(id as int, post.slots[id as int]),
        post.slots[id as int] is Some,
        post.free == pre.free.drop_last(),
    ensures
        storage_inv(post),
{
    assert forall|j: int|
        0 <= j < post.slots.len() && (#[trigger] post.slots[j]) is None implies on_free_stack(
        post.free,
        j,
    ) by {
        assert(pre.slots[j] is None);
        assert(on_free_stack(pre.free, j));
        let k = choose|k: int| 0 <= k < pre.free.len() && pre.free[k] == j;
        assert(pre.free[k] != pre.free[pre.free.len() - 1]) by {
            assert(j != id);
        }
        assert(k < pre.free.len() - 1);
        assert(post.free[k] == j);
    }
}

/// Appending a fresh occupied slot preserves the free-list invariant.
proof fn lemma_inv_after_append<T>(pre: StorageState<T>, post: StorageState<T>)
    requires
        storage_inv(pre),
        post.slots.len() == pre.slots.len() + 1,
        forall|j: int| 0 <= j < pre.slots.len() ==> post.slots[j] == pre.slots[j],
        post.slots[pre.slots.len() as int] is Some,
        post.free == pre.free,
    ensures
        storage_inv(post),
{
    assert forall|j: int|
        0 <= j < post.slots.len() && (#[trigger] post.slots[j]) is None implies on_free_stack(
        post.free,
        j,
    ) by {
        assert(j < pre.slots.len());
        assert(pre.slots[j] is None);
    }
}

/// Emptying an occupied slot and pushing its index preserves the invariant.
proof fn lemma_inv_after_clear<T>(pre: StorageState<T>, post: StorageState<T>, id: usize)
    requires
        storage_inv(pre),
        id < pre.slots.len(),
        pre.slots[id as int] is Some,
        post.slots == pre.slots.update(id as int, None::<T>),
        post.free == pre.free.push(id),
    ensures
        storage_inv(post),
{
    assert forall|k: int|
        0 <= k < post.free.len() implies (#[trigger] post.free[k]) < post.slots.len()
        && post.slots[post.free[k] as int] is None by {
        if k < pre.free.len() {
            assert(pre.free[k] < pre.slots.len());
            assert(pre.slots[pre.free[k] as int] is None);
            assert(pre.free[k] != id);
        } else {
            assert(post.free[k] == id);
        }
    }
    assert forall|j: int|
        0 <= j < post.slots.len() && (#[trigger] post.slots[j]) is None implies on_free_stack(
        post.free,
        j,
    ) by {
        if j == id {
            assert(post.free[pre.free.len() as int] == id);
        } else {
            assert(pre.slots[j] is None);
            assert(on_free_stack(pre.free, j));
            let k = choose|k: int| 0 <= k < pre.free.len() && pre.free[k] == j;
            assert(post.free[k] == j);
        }
    }
    assert forall|k1: int, k2: int|
        0 <= k1 < post.free.len() && 0 <= k2 < post.free.len() && k1 != k2 implies post.free[k1]
        != post.free[k2] by {
        if k1 < pre.free.len() && k2 < pre.free.len() {
        } else if k1 < pre.free.len() {
            assert(pre.slots[pre.free[k1] as int] is None);
            assert(post.free[k2] == id);
        } else if k2 < pre.free.len() {
            assert(pre.slots[pre.free[k2] as int] is None);
            assert(post.free[k1] == id);
        }
    }
}

/// Law: right after `add` returns a handle, looking that handle up yields
/// exactly the value that was inserted.
pub proof fn lemma_add_sets_slot<T>(pre: StorageState<T>, post: StorageState<T>, item: T, id: usize)
    requires
        add_rel(pre, post, item, id),
    ensures
        slot_value(post, id) == Some(item),
{
}

/// Law: `remove` returns whatever the slot held before the call and leaves
/// the slot empty, so a later lookup of the same handle yields nothing.
pub proof fn lemma_remove_clears_slot<T>(
    pre: StorageState<T>,
    post: StorageState<T>,
    id: usize,
    r: Option<T>,
)
    requires
        remove_rel(pre, post, id, r),
    ensures
        r == slot_value(pre, id),
        slot_value(post, id) is None,
{
}

/// Law: an `add` that hands out one handle leaves the slot of every other
/// handle exactly as it was.
pub proof fn lemma_add_preserves_other_slots<T>(
    pre: StorageState<T>,
    post: StorageState<T>,
    item: T,
    id: usize,
    other: usize,
)
    requires
        add_rel(pre, post, item, id),
        other != id,
    ensures
        slot_value(post, other) == slot_value(pre, other),
{
}

/// Law: a `remove` of one handle leaves the slot of every other handle
/// exactly as it was.
pub proof fn lemma_remove_preserves_other_slots<T>(
    pre: StorageState<T>,
    post: StorageState<T>,
    id: usize,
    r: Option<T>,
    other: usize,
)
    requires
        remove_rel(pre, post, id, r),
        other != id,
    ensures
        slot_value(post, other) == slot_value(pre, other),
{
}

/// Law: removing the same handle twice returns the value at most once; the
/// second call returns nothing and leaves the storage untouched.
pub proof fn lemma_remove_twice<T>(
    s0: StorageState<T>,
    s1: StorageState<T>,
    s2: StorageState<T>,
    id: usize,
    r1: Option<T>,
    r2: Option<T>,
)
    requires
        remove_rel(s0, s1, id, r1),
        remove_rel(s1, s2, id, r2),
    ensures
        r2 is None,
        s2.slots == s1.slots,
        s2.free == s1.free,
{
}

/// Law: freed slots are reused in last-freed-first order. After removing the
/// occupied slots of `h1` and then `h2`, the next insertion reuses `h2`'s
/// index and the one after it reuses `h1`'s.
pub proof fn lemma_lifo_reuse<T>(
    s0: StorageState<T>,
    s1: StorageState<T>,
    s2: StorageState<T>,
    s3: StorageState<T>,
    s4: StorageState<T>,
    h1: usize,
    h2: usize,
    v1: T,
    v2: T,
    x1: T,
    x2: T,
    k1: usize,
    k2: usize,
)
    requires
        remove_rel(s0, s1, h1, Some(v1)),
        remove_rel(s1, s2, h2, Some(v2)),
        add_rel(s2, s3, x1, k1),
        add_rel(s3, s4, x2, k2),
    ensures
        k1 == h2,
        k2 == h1,
{
    assert(s2.free == s0.free.push(h1).push(h2));
    assert(s3.free =~= s0.free.push(h1));
}

} // verus!
