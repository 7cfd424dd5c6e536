//! Handle table: 64 small integer handles, always handed out lowest first.

use vstd::prelude::*;
use super::{RuntimeError, MAX_HANDLES};

verus! {

/// `h` is the lowest unused handle of `used`.
pub open spec fn lowest_free(used: Seq<bool>, h: int) -> bool {
    &&& 0 <= h < used.len()
    &&& !used[h]
    &&& forall|j: int| 0 <= j < h ==> #[trigger] used[j]
}

pub open spec fn all_used(used: Seq<bool>) -> bool {
    forall|j: int| 0 <= j < used.len() ==> #[trigger] used[j]
}

#[derive(Clone, Copy, Debug, PartialEq, Eq)]
pub struct HandleTable {
    used: [bool; MAX_HANDLES],
}

impl HandleTable {
    /// Which handles are in use, by handle number.
    pub closed spec fn slots(&self) -> Seq<bool> {
        self.used@
    }

    pub open spec fn held(&self, handle: u16) -> bool {
        handle < MAX_HANDLES && self.slots()[handle as int]
    }

    /// A handle table always has one slot per possible handle.
    pub proof fn lemma_len(&self)
        ensures
            self.slots().len() == MAX_HANDLES,
    {
    }

    pub fn new() -> (t: Self)
        ensures
            t.slots() == Seq::new(MAX_HANDLES as nat, |i: int| false),
    {
        let t = HandleTable { used: [false; MAX_HANDLES] };
        assert(t.slots() =~= Seq::new(MAX_HANDLES as nat, |i: int| false));
        t
    }

    /// Hands out the lowest free handle.
    pub fn allocate(&mut self) -> (r: Result<u16, RuntimeError>)
        ensures
            final(self).slots().len() == MAX_HANDLES,
            match r {
                Ok(h) => lowest_free(old(self).slots(), h as int) && final(self).slots() == old(self).slots().update(h as int, true),
                Err(e) => e == RuntimeError::ResourceExhausted && all_used(old(self).slots()) && *final(self) == *old(self),
            },
    {
        let mut i: usize = 0;
        while i < MAX_HANDLES
            invariant
                i <= MAX_HANDLES,
                *self == *old(self),
                self.used@.len() == MAX_HANDLES,
                forall|j: int| 0 <= j < i ==> #[trigger] self.used@[j],
            decreases MAX_HANDLES - i,
        {
            if !self.used[i] {
                self.used[i] = true;
                return Ok(i as u16);
            }
            i += 1;
        }
        Err(RuntimeError::ResourceExhausted)
    }

    pub fn release(&mut self, handle: u16) -> (r: Result<(), RuntimeError>)
        ensures
            final(self).slots().len() == MAX_HANDLES,
            old(self).held(handle) ==> r == Ok::<(), RuntimeError>(()) && final(self).slots() == old(self).slots().update(handle as int, false),
            !old(self).held(handle) ==> r == Err::<(), RuntimeError>(RuntimeError::NotFound) && *final(self) == *old(self),
    {
        let index = handle as usize;
        if index >= MAX_HANDLES || !self.used[index] {
            return Err(RuntimeError::NotFound);
        }
        self.used[index] = false;
        Ok(())
    }

    pub fn contains(&self, handle: u16) -> (r: bool)
        ensures
            r == self.held(handle),
    {
        let index = handle as usize;
        index < MAX_HANDLES && self.used[index]
    }
}

impl Default for HandleTable {
    fn default() -> (t: Self)
        ensures
            t.slots() == Seq::new(MAX_HANDLES as nat, |i: int| false),
    {
        Self::new()
    }
}

/// A handle that was just released is free again, and the next allocation
/// returns it unless a lower handle is also free.
pub proof fn lemma_release_then_lowest(used: Seq<bool>, h: int, first: int)
    requires
        0 <= h < used.len(),
        used[h],
        lowest_free(used.update(h, false), first),
    ensures
        first <= h,
        (forall|j: int| 0 <= j < h ==> #[trigger] used[j]) ==> first == h,
{
    if first > h {
        assert(used.update(h, false)[h] == false);
    }
    if forall|j: int| 0 <= j < h ==> #[trigger] used[j] {
        if first < h {
            assert(used[first]);
            assert(used.update(h, false)[first]);
        }
    }
}

/// Allocating marks the handle held; releasing it makes it free again, and
/// every other handle keeps its state.
pub proof fn lemma_allocate_release_round_trip(used: Seq<bool>, h: int)
    requires
        lowest_free(used, h),
    ensures
        used.update(h, true)[h],
        used.update(h, true).update(h, false) == used,
{
    assert(used.update(h, true).update(h, false) =~= used);
}

} // verus!
