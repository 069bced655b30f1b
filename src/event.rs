use vstd::prelude::*;

verus! {

/// A one-shot latch with many listeners. Listeners registered before it
/// fires wait and are woken once when it fires; later ones find it fired.
pub struct Event {
    pub fired: bool,
    /// Listeners still waiting; listener `i` sits at position `i`.
    pub waiting: Vec<u64>,
}

/// A registration on an event: `ready` when the event had fired already.
#[derive(Clone, Copy, PartialEq, Eq, Structural, Debug)]
pub struct EventListener {
    pub index: u64,
    pub ready: bool,
}

impl Event {
    pub open spec fn wf(&self) -> bool {
        &&& forall|i: int| 0 <= i < self.waiting@.len() ==> #[trigger] self.waiting@[i] == i
        &&& self.fired ==> self.waiting@.len() == 0
    }

    pub fn new() -> (e: Self)
        ensures
            e.wf(),
            !e.fired,
            e.waiting@.len() == 0,
    {
        Event { fired: false, waiting: Vec::new() }
    }

    /// Registers a listener.
    pub fn listen(&mut self) -> (l: EventListener)
        requires
            old(self).wf(),
        ensures
            final(self).wf(),
            old(self).fired ==> l.ready && *final(self) == *old(self),
            !old(self).fired ==> {
                &&& !l.ready
                &&& l.index == old(self).waiting@.len()
                &&& final(self).waiting@ == old(self).waiting@.push(l.index)
                &&& !final(self).fired
            },
    {
        if self.fired {
            EventListener { index: 0, ready: true }
        } else {
            let index = self.waiting.len() as u64;
            let ghost w = self.waiting@;
            self.waiting.push(index);
            proof {
                assert forall|i: int| 0 <= i < self.waiting@.len() implies #[trigger] self.waiting@[i] == i by {
                    if i < w.len() {
                        assert(self.waiting@[i] == w[i]);
                    }
                }
            }
            EventListener { index, ready: false }
        }
    }

    /// Fires the event and returns the indices of the listeners it wakes:
    /// every listener still waiting, each once. Firing again wakes nobody.
    pub fn notify_all(&mut self) -> (woken: Vec<u64>)
        requires
            old(self).wf(),
        ensures
            final(self).wf(),
            final(self).fired,
            final(self).waiting@.len() == 0,
            woken@ == old(self).waiting@,
            old(self).fired ==> woken@.len() == 0,
    {
        self.fired = true;
        let mut woken: Vec<u64> = Vec::new();
        std::mem::swap(&mut woken, &mut self.waiting);
        woken
    }
}

} // verus!
