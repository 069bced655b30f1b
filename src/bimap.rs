use vstd::prelude::*;
use crate::fingerprint::{FingerprintView, TaskFingerprint};

verus! {

/// A one-to-one map between task fingerprints and task ids.
pub struct BiMap {
    pub entries: Vec<(TaskFingerprint, u64)>,
}

impl BiMap {
    pub open spec fn wf(&self) -> bool {
        forall|i: int, j: int|
            0 <= i < j < self.entries@.len() ==> self.entries@[i].0@ != self.entries@[j].0@
                && self.entries@[i].1 != self.entries@[j].1
    }

    /// Whether `fp` is mapped to `id`.
    pub open spec fn maps(&self, fp: FingerprintView, id: u64) -> bool {
        exists|i: int|
            0 <= i < self.entries@.len() && (#[trigger] self.entries@[i]).0@ == fp
                && self.entries@[i].1 == id
    }

    pub open spec fn has_fingerprint(&self, fp: FingerprintView) -> bool {
        exists|i: int| 0 <= i < self.entries@.len() && (#[trigger] self.entries@[i]).0@ == fp
    }

    pub open spec fn has_id(&self, id: u64) -> bool {
        exists|i: int| 0 <= i < self.entries@.len() && (#[trigger] self.entries@[i]).1 == id
    }

    pub fn new() -> (m: Self)
        ensures
            m.wf(),
            m.entries@.len() == 0,
    {
        BiMap { entries: Vec::new() }
    }

    pub fn lookup_forward(&self, fp: &TaskFingerprint) -> (r: Option<u64>)
        requires
            self.wf(),
        ensures
            match r {
                Some(id) => self.maps(fp@, id),
                None => !self.has_fingerprint(fp@),
            },
    {
        let mut i: usize = 0;
        while i < self.entries.len()
            invariant
                i <= self.entries@.len(),
                forall|k: int| 0 <= k < i ==> (#[trigger] self.entries@[k]).0@ != fp@,
            decreases self.entries@.len() - i,
        {
            if self.entries[i].0.same_as(fp) {
                assert(self.entries@[i as int].0@ == fp@);
                return Some(self.entries[i].1);
            }
            i = i + 1;
        }
        None
    }

    pub fn lookup_reverse(&self, id: u64) -> (r: Option<&TaskFingerprint>)
        requires
            self.wf(),
        ensures
            match r {
                Some(fp) => self.maps(fp@, id),
                None => !self.has_id(id),
            },
    {
        let mut i: usize = 0;
        while i < self.entries.len()
            invariant
                i <= self.entries@.len(),
                forall|k: int| 0 <= k < i ==> (#[trigger] self.entries@[k]).1 != id,
            decreases self.entries@.len() - i,
        {
            if self.entries[i].1 == id {
                assert(self.entries@[i as int].1 == id);
                return Some(&self.entries[i].0);
            }
            i = i + 1;
        }
        None
    }

    /// Installs `fp -> id`; where `fp` is mapped already, returns the id it
    /// maps to and leaves the map as it was.
    pub fn try_insert(&mut self, fp: TaskFingerprint, id: u64) -> (r: Result<(), u64>)
        requires
            old(self).wf(),
            !old(self).has_id(id),
        ensures
            final(self).wf(),
            match r {
                Ok(()) => {
                    &&& !old(self).has_fingerprint(fp@)
                    &&& final(self).entries@ == old(self).entries@.push((fp, id))
                    &&& final(self).maps(fp@, id)
                },
                Err(existing) => {
                    &&& old(self).maps(fp@, existing)
                    &&& *final(self) == *old(self)
                },
            },
    {
        match self.lookup_forward(&fp) {
            Some(existing) => Err(existing),
            None => {
                let ghost fv = fp@;
                let ghost old_entries = self.entries@;
                self.entries.push((fp, id));
                proof {
                    assert(self.entries@[old_entries.len() as int] == (fp, id));
                    assert forall|i: int, j: int|
                        0 <= i < j < self.entries@.len() implies self.entries@[i].0@
                        != self.entries@[j].0@ && self.entries@[i].1 != self.entries@[j].1 by {
                        if j == old_entries.len() {
                            assert(old_entries[i] == self.entries@[i]);
                        } else {
                            assert(old_entries[i] == self.entries@[i]);
                            assert(old_entries[j] == self.entries@[j]);
                        }
                    }
                }
                Ok(())
            }
        }
    }
}

} // verus!
