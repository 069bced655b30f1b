use vstd::prelude::*;

verus! {

/// Ids at or above this value are transient; persistent ids lie below it.
pub const TRANSIENT_TASK_BIT: u64 = 0x8000_0000;

/// Largest id of the transient range.
pub const MAX_TASK_ID: u64 = 0xffff_ffff;

pub open spec fn is_transient_id(id: u64) -> bool {
    id >= TRANSIENT_TASK_BIT
}

pub fn is_transient(id: u64) -> (r: bool)
    ensures
        r == is_transient_id(id),
{
    id >= TRANSIENT_TASK_BIT
}

/// Hands out ids of the range `min..=max`, preferring ids given back by `reuse`.
pub struct IdFactory {
    pub min: u64,
    pub max: u64,
    /// The next id that has never been handed out.
    pub next: u64,
    /// Ids given back, handed out again last-in first-out.
    pub free: Vec<u64>,
}

impl IdFactory {
    pub open spec fn wf(&self) -> bool {
        &&& 1 <= self.min <= self.next
        &&& self.max < u64::MAX
        &&& self.next <= self.max + 1
        &&& forall|i: int| 0 <= i < self.free@.len() ==> self.min <= #[trigger] self.free@[i] < self.next
        &&& forall|i: int, j: int|
            0 <= i < j < self.free@.len() ==> self.free@[i] != self.free@[j]
    }

    /// Whether `id` is currently handed out.
    pub open spec fn is_allocated(&self, id: u64) -> bool {
        self.min <= id < self.next && !self.free@.contains(id)
    }

    /// How many ids are currently handed out.
    pub open spec fn consumed(&self) -> int {
        (self.next - self.min) - self.free@.len()
    }

    pub fn new_with_range(min: u64, max: u64) -> (f: Self)
        requires
            1 <= min <= max < u64::MAX,
        ensures
            f.wf(),
            f.min == min,
            f.max == max,
            f.next == min,
            f.free@ == Seq::<u64>::empty(),
            f.consumed() == 0,
    {
        IdFactory { min, max, next: min, free: Vec::new() }
    }

    /// A fresh id; `None` when the range and the free list are both exhausted.
    pub fn get(&mut self) -> (r: Option<u64>)
        requires
            old(self).wf(),
        ensures
            final(self).wf(),
            final(self).min == old(self).min,
            final(self).max == old(self).max,
            match r {
                Some(id) => {
                    &&& !old(self).is_allocated(id)
                    &&& final(self).is_allocated(id)
                    &&& old(self).min <= id <= old(self).max
                    &&& final(self).consumed() == old(self).consumed() + 1
                    &&& forall|x: u64| x != id ==> (final(self).is_allocated(x) == old(self).is_allocated(x))
                },
                None => {
                    &&& old(self).free@.len() == 0
                    &&& old(self).next == old(self).max + 1
                    &&& *final(self) == *old(self)
                },
            },
    {
        if self.free.len() > 0 {
            let ghost old_free = self.free@;
            let id = self.free.pop().unwrap();
            proof {
                assert(old_free == self.free@.push(id));
                assert(!self.free@.contains(id)) by {
                    if self.free@.contains(id) {
                        let k = choose|k: int| 0 <= k < self.free@.len() && self.free@[k] == id;
                        assert(old_free[k] == old_free[old_free.len() - 1]);
                    }
                }
                assert forall|x: u64| x != id implies (self.free@.contains(x) == old_free.contains(x)) by {
                    if old_free.contains(x) {
                        let k = choose|k: int| 0 <= k < old_free.len() && old_free[k] == x;
                        assert(self.free@[k] == x);
                    }
                    if self.free@.contains(x) {
                        let k = choose|k: int| 0 <= k < self.free@.len() && self.free@[k] == x;
                        assert(old_free[k] == x);
                    }
                }
                assert(old_free[old_free.len() - 1] == id);
            }
            Some(id)
        } else if self.next <= self.max {
            let id = self.next;
            self.next = self.next + 1;
            Some(id)
        } else {
            None
        }
    }

    /// Gives back an id that was handed out and is known to be unused.
    pub fn reuse(&mut self, id: u64)
        requires
            old(self).wf(),
            old(self).is_allocated(id),
        ensures
            final(self).wf(),
            final(self).min == old(self).min,
            final(self).max == old(self).max,
            !final(self).is_allocated(id),
            final(self).consumed() == old(self).consumed() - 1,
            forall|x: u64| x != id ==> (final(self).is_allocated(x) == old(self).is_allocated(x)),
    {
        let ghost old_free = self.free@;
        self.free.push(id);
        proof {
            assert(self.free@ == old_free.push(id));
            assert(self.free@[old_free.len() as int] == id);
            assert forall|x: u64| x != id implies (self.free@.contains(x) == old_free.contains(x)) by {
                if old_free.contains(x) {
                    let k = choose|k: int| 0 <= k < old_free.len() && old_free[k] == x;
                    assert(self.free@[k] == x);
                }
                if self.free@.contains(x) {
                    let k = choose|k: int| 0 <= k < self.free@.len() && self.free@[k] == x;
                    assert(old_free[k] == x);
                }
            }
        }
    }
}

} // verus!
