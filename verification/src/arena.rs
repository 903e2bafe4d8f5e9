//! Generational handle arena: owns values of one kind and issues opaque
//! 64-bit handles for them. A handle packs a slot index (low 32 bits) and a
//! per-slot generation counter (high 32 bits). Removing a value bumps the
//! slot's generation, so a handle captured before the removal can never reach
//! a later tenant of the same slot.
use vstd::prelude::*;

verus! {

use crate::INVALID_HANDLE;

/// How an arena changes when `insert` returns `h`, apart from which value
/// was stored: the handle is fresh and valid, every previously valid handle
/// keeps its value, no other handle becomes valid, and staleness is
/// permanent.
pub open spec fn inserted_handle<V>(pre: Arena<V>, post: Arena<V>, h: u64) -> bool {
    &&& post.valid(h)
    &&& h != INVALID_HANDLE
    &&& !pre.valid(h)
    &&& forall|h2: u64|
        pre.valid(h2) ==> #[trigger] post.valid(h2) && post.value_of(h2) == pre.value_of(h2)
    &&& forall|h2: u64| #[trigger] post.valid(h2) ==> h2 == h || pre.valid(h2)
    &&& forall|h2: u64| pre.stale(h2) ==> #[trigger] post.stale(h2)
    &&& pre.slot_count() <= post.slot_count() <= pre.slot_count() + 1
}

/// `inserted_handle`, together with which value the new handle reaches.
pub open spec fn inserted<V>(pre: Arena<V>, post: Arena<V>, h: u64, v: V) -> bool {
    &&& inserted_handle(pre, post, h)
    &&& post.value_of(h) == v
}

/// How an arena changes when `remove(h)` runs: `h` is invalid afterwards
/// (stale, if it was valid), every other valid handle keeps its value, no
/// handle becomes valid, and staleness is permanent.
pub open spec fn removed<V>(pre: Arena<V>, post: Arena<V>, h: u64) -> bool {
    &&& !post.valid(h)
    &&& (pre.valid(h) ==> post.stale(h))
    &&& forall|h2: u64|
        h2 != h && pre.valid(h2) ==> #[trigger] post.valid(h2) && post.value_of(h2)
            == pre.value_of(h2)
    &&& forall|h2: u64| #[trigger] post.valid(h2) ==> pre.valid(h2) && h2 != h
    &&& forall|h2: u64| pre.stale(h2) ==> #[trigger] post.stale(h2)
    &&& post.slot_count() == pre.slot_count()
}

/// How an arena changes under `get_mut(h)`: only the value behind `h` may
/// differ; validity, staleness and every other value are untouched.
pub open spec fn mutated_at<V>(pre: Arena<V>, post: Arena<V>, h: u64) -> bool {
    &&& post.slot_count() == pre.slot_count()
    &&& forall|h2: u64| #[trigger] post.valid(h2) == pre.valid(h2)
    &&& forall|h2: u64| #[trigger] post.stale(h2) == pre.stale(h2)
    &&& forall|h2: u64|
        h2 != h && pre.valid(h2) ==> #[trigger] post.value_of(h2) == pre.value_of(h2)
}

/// Slot index carried in the low 32 bits of a handle.
pub open spec fn handle_index(h: u64) -> int {
    (h & 0xFFFF_FFFF) as int
}

/// Generation carried in the high 32 bits of a handle.
pub open spec fn handle_gen(h: u64) -> int {
    (h >> 32) as int
}

proof fn lemma_pack(g: u32, i: u32)
    ensures
        handle_gen(((g as u64) << 32) | (i as u64)) == g,
        handle_index(((g as u64) << 32) | (i as u64)) == i,
{
    assert(((((g as u64) << 32) | (i as u64)) >> 32) == g as u64) by (bit_vector);
    assert(((((g as u64) << 32) | (i as u64)) & 0xFFFF_FFFF) == i as u64) by (bit_vector);
}

/// Two handles with the same index and generation are the same handle.
proof fn lemma_handle_parts_determine_handle(a: u64, b: u64)
    requires
        handle_gen(a) == handle_gen(b),
        handle_index(a) == handle_index(b),
    ensures
        a == b,
{
    assert((a >> 32) == (b >> 32) && (a & 0xFFFF_FFFF) == (b & 0xFFFF_FFFF) ==> a == b)
        by (bit_vector);
}

proof fn lemma_invalid_handle_parts()
    ensures
        handle_index(INVALID_HANDLE) == 0xFFFF_FFFF,
        handle_gen(INVALID_HANDLE) == 0xFFFF_FFFF,
{
    assert((0xFFFF_FFFF_FFFF_FFFFu64 & 0xFFFF_FFFF) == 0xFFFF_FFFFu64) by (bit_vector);
    assert((0xFFFF_FFFF_FFFF_FFFFu64 >> 32) == 0xFFFF_FFFFu64) by (bit_vector);
}

struct Slot<V> {
    generation: u32,
    val: Option<V>,
}

/// Pool of values of one kind, addressed by generational handles.
pub struct Arena<V> {
    slots: Vec<Slot<V>>,
    free: Vec<u32>,
}

impl<V> Arena<V> {
    /// Number of slots ever allocated (live, free and retired together).
    pub closed spec fn slot_count(self) -> int {
        self.slots@.len() as int
    }

    /// Current generation of slot `i`.
    pub closed spec fn slot_gen(self, i: int) -> int {
        self.slots@[i].generation as int
    }

    /// Whether slot `i` currently holds a value.
    pub closed spec fn slot_live(self, i: int) -> bool {
        self.slots@[i].val is Some
    }

    /// The value held by slot `i` (meaningful only when the slot is live).
    pub closed spec fn slot_value(self, i: int) -> V {
        self.slots@[i].val->Some_0
    }

    /// A handle is valid exactly when its index is in bounds, the slot is
    /// live, and the slot's generation equals the handle's generation.
    pub open spec fn valid(self, h: u64) -> bool {
        &&& 0 <= handle_index(h) < self.slot_count()
        &&& self.slot_live(handle_index(h))
        &&& handle_gen(h) == self.slot_gen(handle_index(h))
    }

    /// A handle is stale when its slot has since moved to a later generation.
    /// Generations only grow, so staleness is permanent.
    pub open spec fn stale(self, h: u64) -> bool {
        &&& 0 <= handle_index(h) < self.slot_count()
        &&& handle_gen(h) < self.slot_gen(handle_index(h))
    }

    /// The value a valid handle refers to.
    pub open spec fn value_of(self, h: u64) -> V {
        self.slot_value(handle_index(h))
    }

    pub closed spec fn wf(self) -> bool {
        &&& self.slots@.len() <= 0xFFFF_FFFF
        &&& forall|i: int|
            0 <= i < self.slots@.len() && self.slots@[i].val is Some
                ==> #[trigger] self.slots@[i].generation < 0xFFFF_FFFFu32
        &&& forall|k: int|
            0 <= k < self.free@.len() ==> {
                let j = #[trigger] self.free@[k] as int;
                &&& j < self.slots@.len()
                &&& self.slots@[j].val is None
                &&& self.slots@[j].generation < 0xFFFF_FFFFu32
            }
        &&& forall|k1: int, k2: int|
            0 <= k1 < k2 < self.free@.len()
                ==> #[trigger] self.free@[k1] != #[trigger] self.free@[k2]
    }

    /// A fresh arena: no slots, so no handle is valid or stale.
    pub fn new() -> (a: Self)
        ensures
            a.wf(),
            a.slot_count() == 0,
            forall|h: u64| !a.valid(h),
            forall|h: u64| !a.stale(h),
    {
        Arena { slots: Vec::new(), free: Vec::new() }
    }

    /// Slots allocated so far; insertion is possible while this is below
    /// `u32::MAX`.
    pub fn slot_total(&self) -> (n: usize)
        ensures
            n == self.slot_count(),
    {
        self.slots.len()
    }

    /// Store `v` and return a handle for it. The handle is fresh: it was not
    /// valid before, every previously valid handle still reaches its old
    /// value, and every stale handle stays stale.
    pub fn insert(&mut self, v: V) -> (h: u64)
        requires
            old(self).wf(),
            old(self).slot_count() < 0xFFFF_FFFF,
        ensures
            final(self).wf(),
            inserted(*old(self), *final(self), h, v),
    {
        let idx: u32 = match self.free.pop() {
            Some(i) => i,
            None => {
                let i = self.slots.len() as u32;
                self.slots.push(Slot { generation: 0, val: None });
                i
            },
        };
        let slot = &mut self.slots[idx as usize];
        slot.val = Some(v);
        let g = slot.generation;
        let h = ((g as u64) << 32) | (idx as u64);
        proof {
            lemma_pack(g, idx);
            lemma_invalid_handle_parts();
            if h == INVALID_HANDLE {
                assert(handle_index(h) == idx);
                assert(false);
            }
            assert forall|h2: u64| old(self).valid(h2) implies #[trigger] final(self).valid(h2)
                && final(self).value_of(h2) == old(self).value_of(h2) by {
                assert(handle_index(h2) != idx as int);
            }
            assert forall|h2: u64| #[trigger] final(self).valid(h2) implies h2 == h
                || old(self).valid(h2) by {
                if handle_index(h2) == idx as int {
                    lemma_handle_parts_determine_handle(h2, h);
                }
            }
        }
        h
    }

    /// Read through a handle. Absence is indistinguishable between a handle
    /// that never existed, a foreign or out-of-range one, and a stale one.
    pub fn get(&self, h: u64) -> (r: Option<&V>)
        requires
            self.wf(),
        ensures
            match r {
                Some(v) => self.valid(h) && *v == self.value_of(h),
                None => !self.valid(h),
            },
    {
        let idx_bits: u64 = h & 0xFFFF_FFFF;
        let gen_bits: u64 = h >> 32;
        proof {
            assert((h & 0xFFFF_FFFF) <= 0xFFFF_FFFF) by (bit_vector);
        }
        let idx = idx_bits as usize;
        if idx >= self.slots.len() {
            return None;
        }
        let slot = &self.slots[idx];
        if (slot.generation as u64) != gen_bits {
            return None;
        }
        slot.val.as_ref()
    }

    /// Whether `h` currently reaches a value.
    pub fn contains(&self, h: u64) -> (r: bool)
        requires
            self.wf(),
        ensures
            r == self.valid(h),
    {
        let idx_bits: u64 = h & 0xFFFF_FFFF;
        let gen_bits: u64 = h >> 32;
        proof {
            assert((h & 0xFFFF_FFFF) <= 0xFFFF_FFFF) by (bit_vector);
        }
        let idx = idx_bits as usize;
        if idx >= self.slots.len() {
            return false;
        }
        if (self.slots[idx].generation as u64) != gen_bits {
            return false;
        }
        self.slots[idx].val.is_some()
    }

    /// Write access through a valid handle; the arena's shape (generations,
    /// liveness, other values) is untouched whatever the caller writes.
    pub fn borrow_mut(&mut self, h: u64) -> (v: &mut V)
        requires
            old(self).wf(),
            old(self).valid(h),
        ensures
            *v == old(self).value_of(h),
            final(self).wf(),
            mutated_at(*old(self), *final(self), h),
            final(self).value_of(h) == *final(v),
    {
        let idx_bits: u64 = h & 0xFFFF_FFFF;
        proof {
            assert((h & 0xFFFF_FFFF) <= 0xFFFF_FFFF) by (bit_vector);
        }
        let idx = idx_bits as usize;
        proof {
            assert forall|h2: u64|
                handle_gen(h2) == handle_gen(h) && handle_index(h2) == handle_index(
                    h,
                ) implies h2 == h by {
                lemma_handle_parts_determine_handle(h2, h);
            }
        }
        match self.slots[idx].val.as_mut() {
            Some(v) => v,
            None => vstd::pervasive::unreached(),
        }
    }

    /// Write access through a handle; the arena's shape (generations,
    /// liveness, other values) is untouched whatever the caller writes.
    pub fn get_mut(&mut self, h: u64) -> (r: Option<&mut V>)
        requires
            old(self).wf(),
        ensures
            match r {
                Some(v) => {
                    &&& old(self).valid(h)
                    &&& *v == old(self).value_of(h)
                    &&& final(self).wf()
                    &&& final(self).slot_count() == old(self).slot_count()
                    &&& forall|i: int|
                        0 <= i < old(self).slot_count()
                            ==> #[trigger] final(self).slot_gen(i) == old(self).slot_gen(i)
                                && final(self).slot_live(i) == old(self).slot_live(i)
                    &&& forall|i: int|
                        0 <= i < old(self).slot_count() && i != handle_index(h)
                            && old(self).slot_live(i)
                            ==> #[trigger] final(self).slot_value(i) == old(self).slot_value(i)
                    &&& final(self).value_of(h) == *final(v)
                },
                None => !old(self).valid(h) && *final(self) == *old(self),
            },
    {
        let idx_bits: u64 = h & 0xFFFF_FFFF;
        let gen_bits: u64 = h >> 32;
        proof {
            assert((h & 0xFFFF_FFFF) <= 0xFFFF_FFFF) by (bit_vector);
        }
        let idx = idx_bits as usize;
        if idx >= self.slots.len() {
            return None;
        }
        if (self.slots[idx].generation as u64) != gen_bits {
            return None;
        }
        if self.slots[idx].val.is_none() {
            return None;
        }
        proof {
            assert forall|h2: u64|
                handle_gen(h2) == handle_gen(h) && handle_index(h2) == handle_index(
                    h,
                ) implies h2 == h by {
                lemma_handle_parts_determine_handle(h2, h);
            }
        }
        self.slots[idx].val.as_mut()
    }

    /// Free the slot behind a valid handle and hand its value back; the
    /// slot's generation is bumped so the handle (and every copy of it) is
    /// stale from now on. Removing an invalid handle is a no-op that reports
    /// absence.
    pub fn remove(&mut self, h: u64) -> (r: Option<V>)
        requires
            old(self).wf(),
        ensures
            final(self).wf(),
            removed(*old(self), *final(self), h),
            old(self).valid(h) ==> r == Some(old(self).value_of(h)),
            !old(self).valid(h) ==> r is None && *final(self) == *old(self),
    {
        let idx_bits: u64 = h & 0xFFFF_FFFF;
        let gen_bits: u64 = h >> 32;
        proof {
            assert((h & 0xFFFF_FFFF) <= 0xFFFF_FFFF) by (bit_vector);
        }
        let idx = idx_bits as usize;
        if idx >= self.slots.len() {
            return None;
        }
        let g = self.slots[idx].generation;
        if (g as u64) != gen_bits {
            return None;
        }
        if self.slots[idx].val.is_none() {
            return None;
        }
        let taken = self.slots[idx].val.take();
        match taken {
            None => None,
            Some(v) => {
                self.slots[idx].generation = g + 1;
                if g + 1 < 0xFFFF_FFFFu32 {
                    self.free.push(idx as u32);
                }
                proof {
                    assert forall|h2: u64| h2 != h && old(self).valid(h2) implies #[trigger]
                        final(self).valid(h2)
                        && final(self).value_of(h2) == old(self).value_of(h2) by {
                        if handle_index(h2) == idx as int {
                            lemma_handle_parts_determine_handle(h2, h);
                        }
                    }
                }
                Some(v)
            },
        }
    }

    /// A stale handle is never valid: lookups through it report absence.
    pub proof fn lemma_stale_handle_never_valid(self, h: u64)
        requires
            self.stale(h),
        ensures
            !self.valid(h),
    {
    }

    /// The reserved sentinel is never a valid handle of any well-formed
    /// arena.
    pub proof fn lemma_invalid_handle_never_valid(self)
        requires
            self.wf(),
        ensures
            !self.valid(INVALID_HANDLE),
    {
        lemma_invalid_handle_parts();
    }
}

/// Generational reuse never aliases: a handle captured while valid, then
/// removed, is invalid after any later insertion, even one that reuses the
/// same slot, and can never equal the newly issued handle.
pub proof fn lemma_no_alias_after_reuse<V>(
    a0: Arena<V>,
    a1: Arena<V>,
    a2: Arena<V>,
    h: u64,
    h_new: u64,
    v: V,
)
    requires
        a0.valid(h),
        removed(a0, a1, h),
        inserted(a1, a2, h_new, v),
    ensures
        !a2.valid(h),
        h_new != h,
{
    assert(a1.stale(h));
    assert(a2.stale(h));
}

} // verus!
