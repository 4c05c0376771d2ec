//! Target-side registries for short identifiers.
//!
//! The executor registry maps long executor addresses to 3-bit short IDs in
//! eight fixed slots; slot zero holds the sentinel 0 for "unused". The
//! numeric registry hands out monitor IDs from a counter starting at 1 (0
//! means "unallocated"). On the target these sit behind atomics; the
//! allocation rules themselves are plain functions of the stored values.

use vstd::prelude::*;

verus! {

/// The fixed number of executor slots.
pub const EXECUTOR_SLOTS: usize = 8;

/// The target's executor registry: eight slots, each holding a long
/// executor address or 0 for unused.
pub struct ExecutorRegistry {
    slots: Vec<u32>,
}

impl ExecutorRegistry {
    /// The slots' contents.
    pub closed spec fn view(&self) -> Seq<u32> {
        self.slots@
    }

    /// The registry always has exactly eight slots.
    pub open spec fn wf(&self) -> bool {
        self@.len() == EXECUTOR_SLOTS
    }

    /// A fresh registry with every slot unused.
    pub fn new() -> (r: ExecutorRegistry)
        ensures
            r.wf(),
            forall|i: int| 0 <= i < EXECUTOR_SLOTS ==> r@[i] == 0,
    {
        let mut slots: Vec<u32> = Vec::new();
        let mut i: usize = 0;
        while i < EXECUTOR_SLOTS
            invariant
                i <= EXECUTOR_SLOTS,
                slots@.len() == i,
                forall|j: int| 0 <= j < i ==> slots@[j] == 0,
            decreases EXECUTOR_SLOTS - i,
        {
            slots.push(0);
            i = i + 1;
        }
        ExecutorRegistry { slots }
    }

    /// Find the slot already holding this executor address, or claim the
    /// first unused slot for it; the slot index is the executor's short ID.
    /// When all eight slots hold other executors, there is no slot to give.
    pub fn lookup_or_register(&mut self, executor_id: u32) -> (r: Option<u8>)
        requires
            old(self).wf(),
            executor_id != 0,
        ensures
            final(self).wf(),
            match r {
                Some(i) => {
                    &&& i < 8
                    &&& final(self)@ == old(self)@.update(i as int, executor_id)
                    &&& (old(self)@[i as int] == executor_id || old(self)@[i as int] == 0)
                    &&& forall|j: int|
                        0 <= j < i ==> old(self)@[j] != executor_id && old(self)@[j] != 0
                },
                None => {
                    &&& final(self)@ == old(self)@
                    &&& forall|j: int|
                        0 <= j < EXECUTOR_SLOTS ==> old(self)@[j] != executor_id && old(self)@[j]
                            != 0
                },
            },
    {
        let mut i: usize = 0;
        while i < EXECUTOR_SLOTS
            invariant
                old(self).wf(),
                self.wf(),
                executor_id != 0,
                i <= EXECUTOR_SLOTS,
                self@ == old(self)@,
                forall|j: int| 0 <= j < i ==> self@[j] != executor_id && self@[j] != 0,
            decreases EXECUTOR_SLOTS - i,
        {
            let item_id = self.slots[i];
            if item_id == executor_id {
                self.slots[i] = executor_id;
                proof {
                    assert(self@ =~= old(self)@.update(i as int, executor_id));
                }
                return Some(i as u8);
            }
            if item_id == 0 {
                self.slots[i] = executor_id;
                proof {
                    assert(self@ =~= old(self)@.update(i as int, executor_id));
                }
                return Some(i as u8);
            }
            i = i + 1;
        }
        None
    }
}

/// A registry allocating unique numeric IDs by counting up from 1; 0 is
/// reserved for "unallocated".
pub struct NumericRegistry {
    next_id: usize,
}

impl NumericRegistry {
    /// The next ID the registry will hand out.
    pub closed spec fn spec_next_id(&self) -> usize {
        self.next_id
    }

    /// A fresh registry: the first ID handed out is 1.
    pub fn new() -> (r: NumericRegistry)
        ensures
            r.spec_next_id() == 1,
    {
        NumericRegistry { next_id: 1 }
    }

    /// Allocate the next ID. Every call returns a value no earlier call
    /// returned.
    pub fn allocate_new_id(&mut self) -> (r: usize)
        requires
            old(self).spec_next_id() < usize::MAX,
        ensures
            r == old(self).spec_next_id(),
            final(self).spec_next_id() == old(self).spec_next_id() + 1,
    {
        let id = self.next_id;
        self.next_id = self.next_id + 1;
        id
    }
}

} // verus!
