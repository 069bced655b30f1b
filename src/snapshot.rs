use vstd::prelude::*;
use crate::data::CellId;

verus! {

/// High bit of the in-progress word: a snapshot is pending.
pub const SNAPSHOT_REQUESTED_BIT: u64 = 0x8000_0000_0000_0000;

/// What a suspended operation records so that it can be resumed: its kind
/// and arguments, and the step it stopped before.
#[derive(Clone, Copy, PartialEq, Eq, Structural, Debug)]
pub enum OperationKind {
    ConnectChild { parent: u64, child: u64 },
    Invalidate { task: u64 },
    UpdateCell { task: u64, cell: CellId },
    UpdateOutput { task: u64 },
}

#[derive(Clone, Copy, PartialEq, Eq, Structural, Debug)]
pub struct AnyOperation {
    pub kind: OperationKind,
    pub step: u32,
}

pub struct SnapshotRequest {
    pub snapshot_requested: bool,
    pub suspended_operations: Vec<AnyOperation>,
}

impl SnapshotRequest {
    pub fn new() -> (r: Self)
        ensures
            !r.snapshot_requested,
            r.suspended_operations@.len() == 0,
    {
        SnapshotRequest { snapshot_requested: false, suspended_operations: Vec::new() }
    }
}

/// What an operation does at a suspension point.
#[derive(Clone, Copy, PartialEq, Eq, Structural, Debug)]
pub enum SuspendDecision {
    /// No snapshot is pending: go on.
    Continue,
    /// The operation is suspended and waits for the snapshot to complete;
    /// `notify` asks to wake the snapshotter, all operations being suspended.
    Suspended { notify: bool },
}

/// The quiescence barrier: counts the mutating operations in flight and
/// holds the snapshot request.
pub struct SnapshotCoordinator {
    pub in_progress_operations: u64,
    pub snapshot_request: SnapshotRequest,
}

impl SnapshotCoordinator {
    pub open spec fn in_flight(&self) -> u64 {
        (self.in_progress_operations & !SNAPSHOT_REQUESTED_BIT) as u64
    }

    pub open spec fn requested(&self) -> bool {
        self.in_progress_operations & SNAPSHOT_REQUESTED_BIT != 0
    }

    /// The bit and the request agree.
    pub open spec fn wf(&self) -> bool {
        self.requested() == self.snapshot_request.snapshot_requested
    }

    /// A snapshot is pending and no operation runs.
    pub open spec fn quiescent(&self) -> bool {
        self.requested() && self.in_flight() == 0
    }

    pub fn new() -> (c: Self)
        ensures
            c.wf(),
            c.in_flight() == 0,
            !c.requested(),
            c.snapshot_request.suspended_operations@.len() == 0,
    {
        proof {
            assert((0u64 & !SNAPSHOT_REQUESTED_BIT) == 0u64) by (bit_vector);
            assert((0u64 & SNAPSHOT_REQUESTED_BIT) == 0u64) by (bit_vector);
        }
        SnapshotCoordinator { in_progress_operations: 0, snapshot_request: SnapshotRequest::new() }
    }

    pub fn suspending_requested(&self) -> (r: bool)
        ensures
            r == self.requested(),
    {
        (self.in_progress_operations & SNAPSHOT_REQUESTED_BIT) != 0
    }

    /// Enters an operation. While a snapshot is pending no operation may
    /// start: the caller waits for the snapshot to complete and tries again.
    pub fn start_operation(&mut self) -> (started: bool)
        requires
            old(self).wf(),
            old(self).in_flight() < SNAPSHOT_REQUESTED_BIT - 1,
        ensures
            final(self).wf(),
            started == !old(self).requested(),
            started ==> final(self).in_flight() == old(self).in_flight() + 1,
            !started ==> *final(self) == *old(self),
            final(self).requested() == old(self).requested(),
            final(self).snapshot_request == old(self).snapshot_request,
            old(self).quiescent() ==> final(self).quiescent(),
    {
        if (self.in_progress_operations & SNAPSHOT_REQUESTED_BIT) != 0 {
            false
        } else {
            let v = self.in_progress_operations;
            proof {
                assert(v & SNAPSHOT_REQUESTED_BIT == 0 ==> v < SNAPSHOT_REQUESTED_BIT) by (bit_vector);
                assert(v < SNAPSHOT_REQUESTED_BIT ==> (v & !SNAPSHOT_REQUESTED_BIT) == v) by (bit_vector);
                assert(v + 1 < SNAPSHOT_REQUESTED_BIT ==> ((vstd::prelude::add(v, 1u64)) & !SNAPSHOT_REQUESTED_BIT) == vstd::prelude::add(v, 1u64)
                    && (vstd::prelude::add(v, 1u64) & SNAPSHOT_REQUESTED_BIT) == 0) by (bit_vector);
            }
            self.in_progress_operations = v + 1;
            true
        }
    }

    /// Leaves an operation; returns whether the snapshotter is to be woken
    /// because the last running operation has left.
    pub fn finish_operation(&mut self) -> (notify: bool)
        requires
            old(self).wf(),
            old(self).in_flight() > 0,
        ensures
            final(self).wf(),
            final(self).in_flight() == old(self).in_flight() - 1,
            final(self).requested() == old(self).requested(),
            final(self).snapshot_request == old(self).snapshot_request,
            notify == final(self).quiescent(),
            old(self).quiescent() ==> final(self).quiescent(),
    {
        let v = self.in_progress_operations;
        proof {
            assert((v & !SNAPSHOT_REQUESTED_BIT) > 0 ==> v > 0) by (bit_vector);
            assert((v & !SNAPSHOT_REQUESTED_BIT) > 0 ==> ((vstd::prelude::sub(v, 1u64) & !SNAPSHOT_REQUESTED_BIT)
                == vstd::prelude::sub((v & !SNAPSHOT_REQUESTED_BIT), 1u64) && ((vstd::prelude::sub(v, 1u64) & SNAPSHOT_REQUESTED_BIT)
                == (v & SNAPSHOT_REQUESTED_BIT)))) by (bit_vector);
            assert((vstd::prelude::sub(v, 1u64) == SNAPSHOT_REQUESTED_BIT) == ((vstd::prelude::sub(v, 1u64) & SNAPSHOT_REQUESTED_BIT) != 0
                && (vstd::prelude::sub(v, 1u64) & !SNAPSHOT_REQUESTED_BIT) == 0)) by (bit_vector);
        }
        self.in_progress_operations = v - 1;
        self.in_progress_operations == SNAPSHOT_REQUESTED_BIT
    }

    /// Sets the snapshot bit; returns whether the system is quiescent at once.
    pub fn request_snapshot(&mut self) -> (quiet: bool)
        requires
            old(self).wf(),
        ensures
            final(self).wf(),
            final(self).requested(),
            final(self).in_flight() == old(self).in_flight(),
            final(self).snapshot_request.suspended_operations
                == old(self).snapshot_request.suspended_operations,
            quiet == final(self).quiescent(),
            old(self).quiescent() ==> final(self).quiescent(),
    {
        let v = self.in_progress_operations;
        proof {
            assert(((v | SNAPSHOT_REQUESTED_BIT) & !SNAPSHOT_REQUESTED_BIT) == (v & !SNAPSHOT_REQUESTED_BIT)
                && ((v | SNAPSHOT_REQUESTED_BIT) & SNAPSHOT_REQUESTED_BIT) != 0) by (bit_vector);
            assert(((v | SNAPSHOT_REQUESTED_BIT) == SNAPSHOT_REQUESTED_BIT) == ((v & !SNAPSHOT_REQUESTED_BIT) == 0))
                by (bit_vector);
        }
        self.in_progress_operations = v | SNAPSHOT_REQUESTED_BIT;
        self.snapshot_request.snapshot_requested = true;
        self.in_progress_operations == SNAPSHOT_REQUESTED_BIT
    }

    /// A suspension point of a running operation described by `op`.
    pub fn operation_suspend_point(&mut self, op: AnyOperation) -> (d: SuspendDecision)
        requires
            old(self).wf(),
            old(self).in_flight() > 0,
        ensures
            final(self).wf(),
            final(self).requested() == old(self).requested(),
            d == SuspendDecision::Continue <==> !old(self).requested(),
            d == SuspendDecision::Continue ==> *final(self) == *old(self),
            d matches SuspendDecision::Suspended { notify } ==> {
                &&& final(self).in_flight() == old(self).in_flight() - 1
                &&& final(self).snapshot_request.suspended_operations@
                    == old(self).snapshot_request.suspended_operations@.push(op)
                &&& notify == final(self).quiescent()
            },
            old(self).quiescent() ==> final(self).quiescent(),
    {
        if (self.in_progress_operations & SNAPSHOT_REQUESTED_BIT) != 0 {
            self.snapshot_request.suspended_operations.push(op);
            let notify = self.finish_operation();
            SuspendDecision::Suspended { notify }
        } else {
            SuspendDecision::Continue
        }
    }

    /// Resumes a suspended operation once the snapshot has completed.
    pub fn resume_operation(&mut self, op: AnyOperation)
        requires
            old(self).wf(),
            !old(self).requested(),
            old(self).in_flight() < SNAPSHOT_REQUESTED_BIT - 1,
        ensures
            final(self).wf(),
            !final(self).requested(),
            final(self).in_flight() == old(self).in_flight() + 1,
            ({
                let ops = old(self).snapshot_request.suspended_operations@;
                if ops.contains(op) {
                    exists|i: int|
                        0 <= i < ops.len() && ops[i] == op && (forall|k: int| 0 <= k < i ==> ops[k] != op)
                            && final(self).snapshot_request.suspended_operations@ == ops.remove(i)
                } else {
                    final(self).snapshot_request.suspended_operations@ == ops
                }
            }),
    {
        self.start_operation();
        let ghost word = self.in_progress_operations;
        let mut i: usize = 0;
        let n = self.snapshot_request.suspended_operations.len();
        while i < n
            invariant
                self.in_progress_operations == word,
                !self.snapshot_request.snapshot_requested,
                !self.requested(),
                self.in_flight() == old(self).in_flight() + 1,
                self.snapshot_request.suspended_operations@ == old(self).snapshot_request.suspended_operations@,
                n == self.snapshot_request.suspended_operations@.len(),
                i <= n,
                forall|k: int| 0 <= k < i ==> self.snapshot_request.suspended_operations@[k] != op,
            decreases n - i,
        {
            if self.snapshot_request.suspended_operations[i] == op {
                self.snapshot_request.suspended_operations.remove(i);
                return;
            }
            i = i + 1;
        }
    }

    /// Releases the barrier; suspended operations may resume.
    pub fn complete_snapshot(&mut self)
        requires
            old(self).wf(),
        ensures
            final(self).wf(),
            !final(self).requested(),
            final(self).in_flight() == old(self).in_flight(),
            final(self).snapshot_request.suspended_operations
                == old(self).snapshot_request.suspended_operations,
    {
        let v = self.in_progress_operations;
        proof {
            assert(((v & !SNAPSHOT_REQUESTED_BIT) & !SNAPSHOT_REQUESTED_BIT) == (v & !SNAPSHOT_REQUESTED_BIT)
                && ((v & !SNAPSHOT_REQUESTED_BIT) & SNAPSHOT_REQUESTED_BIT) == 0) by (bit_vector);
        }
        self.in_progress_operations = v & !SNAPSHOT_REQUESTED_BIT;
        self.snapshot_request.snapshot_requested = false;
    }
}

} // verus!
