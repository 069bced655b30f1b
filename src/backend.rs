use vstd::prelude::*;
use std::collections::HashMap;
use crate::bimap::BiMap;
use crate::data::{
    content_view, CachedDataUpdate, CellId, ErrorRecord, InProgressState, ItemKey, OutputValue, RawVc, TaskData,
    TransientTaskType, TypedCellContent,
};
use crate::event::{Event, EventListener};
use crate::fingerprint::TaskFingerprint;
use crate::ids::{is_transient, is_transient_id, IdFactory, MAX_TASK_ID, TRANSIENT_TASK_BIT};
use crate::snapshot::SnapshotCoordinator;
use crate::transient::{
    transient_entries, TransientTable, transient_table_get, transient_table_insert, transient_table_new,
};

verus! {

broadcast use vstd::std_specs::hash::group_hash_axioms;

/// The task backend: identity map, per-task storage, change logs and the
/// snapshot barrier. Scheduling requests for the host come back as results.
pub struct TurboTasksBackend {
    pub persisted_task_id_factory: IdFactory,
    pub transient_task_id_factory: IdFactory,
    pub persisted_task_cache_log: Vec<(TaskFingerprint, u64)>,
    pub task_cache: BiMap,
    pub transient_tasks: TransientTable,
    pub persisted_storage_log: Vec<CachedDataUpdate>,
    pub storage: HashMap<u64, TaskData>,
    pub coordinator: SnapshotCoordinator,
    /// Every storage record committed so far, drained or not.
    pub committed: Ghost<Seq<CachedDataUpdate>>,
    /// The storage records that snapshots have taken so far.
    pub drained: Ghost<Seq<CachedDataUpdate>>,
}

/// The records that one change of task `t`'s data adds to the storage log:
/// one for a persistent task, none for a transient one.
pub open spec fn logged(t: u64, key: ItemKey, added: bool) -> Seq<CachedDataUpdate> {
    if is_transient_id(t) {
        Seq::empty()
    } else {
        seq![CachedDataUpdate { task: t, key, added }]
    }
}

/// `ip` with its done event replaced by `e`.
pub open spec fn with_done_event(ip: InProgressState, e: Event) -> InProgressState {
    match ip {
        InProgressState::Scheduled { clean, start_event, .. } => InProgressState::Scheduled {
            clean,
            done_event: e,
            start_event,
        },
        InProgressState::InProgress { clean, stale, .. } => InProgressState::InProgress {
            clean,
            stale,
            done_event: e,
        },
    }
}

/// The state a task is put in when it is scheduled afresh.
pub open spec fn freshly_scheduled(ip: InProgressState) -> bool {
    ip matches InProgressState::Scheduled { clean, done_event, start_event } && !clean
        && !done_event.fired && done_event.waiting@.len() == 0 && !start_event.fired
        && start_event.waiting@.len() == 0
}

/// The in-progress item after an invalidation: a scheduled task turns
/// unclean, a running one turns stale.
pub open spec fn invalidated(ip: InProgressState) -> InProgressState {
    match ip {
        InProgressState::Scheduled { done_event, start_event, .. } => InProgressState::Scheduled {
            clean: false,
            done_event,
            start_event,
        },
        InProgressState::InProgress { clean, done_event, .. } => InProgressState::InProgress {
            clean,
            stale: true,
            done_event,
        },
    }
}

/// Whether completing a run in state `ip` re-runs the task.
pub open spec fn restarts(ip: InProgressState) -> bool {
    ip matches InProgressState::InProgress { stale, .. } && stale
}

/// The in-progress item after a run in state `ip` completes.
pub open spec fn after_completion(ip: InProgressState) -> Option<InProgressState> {
    match ip {
        InProgressState::InProgress { stale, done_event, .. } => if stale {
            Some(InProgressState::InProgress { clean: false, stale: false, done_event })
        } else {
            None
        },
        InProgressState::Scheduled { .. } => Some(ip),
    }
}

/// A task invalidated while it runs is run again when that run completes,
/// and its done event is kept across the restart.
pub proof fn lemma_stale_rerun(ip: InProgressState)
    requires
        ip.is_executing(),
    ensures
        restarts(invalidated(ip)),
        after_completion(invalidated(ip)) == Some(
            InProgressState::InProgress { clean: false, stale: false, done_event: ip.done_event() },
        ),
{
}

/// What a started task runs: the fingerprint of a persistent task, or the
/// kind of a transient one.
pub enum TaskExecutionSpec {
    Persistent(TaskFingerprint),
    Transient(TransientTaskType),
}

/// A started run: what to run, and the listeners that the start event woke.
pub struct StartedExecution {
    pub spec: TaskExecutionSpec,
    pub woken: Vec<u64>,
}

/// The end of a run: whether the task runs again, and the listeners that
/// its done event woke.
pub struct Completion {
    pub restart: bool,
    pub woken: Vec<u64>,
}

/// The output that a task's result installs.
pub open spec fn output_for(result: Result<Result<RawVc, String>, Option<String>>) -> OutputValue {
    match result {
        Ok(Ok(RawVc::TaskCell(t, c))) => OutputValue::Cell(t, c),
        Ok(Ok(RawVc::TaskOutput(t))) => OutputValue::Output(t),
        Ok(Err(_)) => OutputValue::Error,
        Err(_) => OutputValue::Panic,
    }
}

/// The error record that a task's result installs, if any.
pub open spec fn error_for(result: Result<Result<RawVc, String>, Option<String>>) -> Option<ErrorRecord> {
    match result {
        Ok(Ok(_)) => None,
        Ok(Err(m)) => Some(ErrorRecord { panicked: false, message: Some(m) }),
        Err(m) => Some(ErrorRecord { panicked: true, message: m }),
    }
}

/// What a read of a task's output finds.
pub enum ReadOutput {
    /// The settled output.
    Value(RawVc),
    /// The task is scheduled or running: wait on this listener.
    Listen(EventListener),
    /// The task failed or panicked.
    Failed(ErrorRecord),
    /// A strongly consistent read cannot be answered yet.
    NotYet,
    /// Nothing is cached: the task is to be recomputed.
    RecomputeRequired,
}

impl TurboTasksBackend {
    pub open spec fn wf(&self) -> bool {
        &&& self.persisted_task_id_factory.wf()
        &&& self.persisted_task_id_factory.min == 1
        &&& self.persisted_task_id_factory.max == TRANSIENT_TASK_BIT - 1
        &&& self.transient_task_id_factory.wf()
        &&& self.transient_task_id_factory.min == TRANSIENT_TASK_BIT
        &&& self.transient_task_id_factory.max == MAX_TASK_ID
        &&& self.task_cache.wf()
        &&& forall|i: int|
            0 <= i < self.task_cache.entries@.len()
                ==> self.persisted_task_id_factory.is_allocated(
                #[trigger] self.task_cache.entries@[i].1,
            )
        &&& forall|i: int|
            0 <= i < self.persisted_storage_log@.len() ==> !is_transient_id(
                #[trigger] self.persisted_storage_log@[i].task,
            )
        &&& self.committed@ == self.drained@ + self.persisted_storage_log@
        &&& forall|t: u64| #[trigger] self.storage@.contains_key(t) ==> self.storage@[t].wf()
        &&& self.coordinator.wf()
    }

    pub open spec fn in_progress_of(&self, t: u64) -> Option<InProgressState> {
        if self.storage@.contains_key(t) {
            self.storage@[t].in_progress
        } else {
            None
        }
    }

    pub open spec fn output_of(&self, t: u64) -> Option<OutputValue> {
        if self.storage@.contains_key(t) {
            self.storage@[t].output
        } else {
            None
        }
    }

    pub open spec fn error_of(&self, t: u64) -> Option<ErrorRecord> {
        if self.storage@.contains_key(t) {
            self.storage@[t].error
        } else {
            None
        }
    }

    pub open spec fn has_child(&self, parent: u64, child: u64) -> bool {
        self.storage@.contains_key(parent) && self.storage@[parent].children@.contains(child)
    }

    /// `child` hangs under `parent` and is scheduled, running or settled.
    pub open spec fn child_connected(&self, parent: u64, child: u64) -> bool {
        &&& self.has_child(parent, child)
        &&& (self.in_progress_of(child) is Some || self.output_of(child) is Some)
    }

    /// All storage but that of task `t` is as in `other`.
    pub open spec fn others_unchanged(&self, other: &Self, t: u64) -> bool {
        self.storage@.remove(t) == other.storage@.remove(t)
    }

    pub open spec fn children_of(&self, t: u64) -> Seq<u64> {
        if self.storage@.contains_key(t) {
            self.storage@[t].children@
        } else {
            Seq::empty()
        }
    }

    /// The data of task `t` is as in `other`, down to whether it is held.
    pub open spec fn task_unchanged(&self, other: &Self, t: u64) -> bool {
        &&& self.storage@.contains_key(t) == other.storage@.contains_key(t)
        &&& other.storage@.contains_key(t) ==> self.storage@[t] == other.storage@[t]
    }

    /// Storage and its log are those of `other` after connecting `child`
    /// under `parent`, with `schedule` the task handed to the host: the edge
    /// is added if absent, a child that is new is scheduled, and each change
    /// logs its record; nothing else changes.
    pub open spec fn connected_from(&self, other: &Self, parent: u64, child: u64, schedule: Option<u64>) -> bool {
        let had_edge = other.has_child(parent, child);
        let is_new = other.in_progress_of(child) is None && other.output_of(child) is None;
        &&& self.child_connected(parent, child)
        &&& schedule == (if is_new { Some(child) } else { None })
        &&& self.persisted_storage_log@ == other.persisted_storage_log@ + (if had_edge {
            Seq::empty()
        } else {
            logged(parent, ItemKey::Child(child), true)
        }) + (if is_new {
            logged(child, ItemKey::InProgress, true)
        } else {
            Seq::empty()
        })
        &&& self.children_of(parent) == (if had_edge {
            other.children_of(parent)
        } else {
            other.children_of(parent).push(child)
        })
        &&& (had_edge && !is_new) ==> self.storage@ == other.storage@
        &&& self.storage@.contains_key(parent)
        &&& self.output_of(parent) == other.output_of(parent)
        &&& self.error_of(parent) == other.error_of(parent)
        &&& other.storage@.contains_key(parent) ==> self.storage@[parent].cells
            == other.storage@[parent].cells
        &&& !other.storage@.contains_key(parent) ==> self.storage@[parent].cells@.len() == 0
        &&& (parent != child || !is_new) ==> self.in_progress_of(parent) == other.in_progress_of(parent)
        &&& (!is_new && parent != child) ==> self.task_unchanged(other, child)
        &&& is_new ==> {
            &&& self.in_progress_of(child) is Some
            &&& freshly_scheduled(self.in_progress_of(child)->0)
            &&& self.output_of(child) == other.output_of(child)
            &&& self.error_of(child) == other.error_of(child)
            &&& other.storage@.contains_key(child) ==> self.storage@[child].cells
                == other.storage@[child].cells
            &&& !other.storage@.contains_key(child) ==> self.storage@[child].cells@.len() == 0
            &&& parent != child ==> self.children_of(child) == other.children_of(child)
        }
        &&& forall|t: u64| t != parent && t != child ==> #[trigger] self.task_unchanged(other, t)
    }

    /// Task `t`'s data is that of `other` after an invalidation: its
    /// in-progress item invalidated, or, where it had none, a fresh
    /// scheduling in place of its output and error; cells and children kept.
    pub open spec fn invalidated_from(&self, other: &Self, t: u64) -> bool {
        &&& self.kept_cells_and_children(other, t)
        &&& match other.in_progress_of(t) {
            Some(ip) => {
                &&& self.in_progress_of(t) == Some(invalidated(ip))
                &&& self.output_of(t) == other.output_of(t)
                &&& self.error_of(t) == other.error_of(t)
            },
            None => {
                &&& self.in_progress_of(t) is Some
                &&& freshly_scheduled(self.in_progress_of(t)->0)
                &&& self.output_of(t) is None
                &&& self.error_of(t) is None
            },
        }
    }

    /// Task `t` is held, with the cells and children it had before (none
    /// where it was not held).
    pub open spec fn kept_cells_and_children(&self, other: &Self, t: u64) -> bool {
        &&& self.storage@.contains_key(t)
        &&& other.storage@.contains_key(t) ==> self.storage@[t].cells == other.storage@[t].cells
            && self.storage@[t].children == other.storage@[t].children
        &&& !other.storage@.contains_key(t) ==> self.storage@[t].cells@.len() == 0
            && self.storage@[t].children@.len() == 0
    }

    /// The parts outside per-task storage and its log are as in `other`.
    pub open spec fn registry_unchanged(&self, other: &Self) -> bool {
        &&& self.persisted_task_id_factory == other.persisted_task_id_factory
        &&& self.transient_task_id_factory == other.transient_task_id_factory
        &&& self.persisted_task_cache_log == other.persisted_task_cache_log
        &&& self.task_cache == other.task_cache
        &&& self.transient_tasks == other.transient_tasks
        &&& self.coordinator == other.coordinator
        &&& self.drained == other.drained
    }

    pub fn new() -> (b: Self)
        ensures
            b.wf(),
            b.storage@ == Map::<u64, TaskData>::empty(),
            b.task_cache.entries@.len() == 0,
            b.persisted_task_cache_log@.len() == 0,
            b.persisted_storage_log@.len() == 0,
            forall|k: u64| !transient_entries(b.transient_tasks).contains_key(k),
            b.coordinator.in_flight() == 0,
            !b.coordinator.requested(),
            b.coordinator.snapshot_request.suspended_operations@.len() == 0,
    {
        TurboTasksBackend {
            persisted_task_id_factory: IdFactory::new_with_range(1, TRANSIENT_TASK_BIT - 1),
            transient_task_id_factory: IdFactory::new_with_range(TRANSIENT_TASK_BIT, MAX_TASK_ID),
            persisted_task_cache_log: Vec::new(),
            task_cache: BiMap::new(),
            transient_tasks: transient_table_new(),
            persisted_storage_log: Vec::new(),
            storage: HashMap::new(),
            coordinator: SnapshotCoordinator::new(),
            committed: Ghost(Seq::empty()),
            drained: Ghost(Seq::empty()),
        }
    }

    /// `connected_from` speaks only of storage and its log.
    proof fn lemma_connected_from_storage(&self, a: &Self, b: &Self, parent: u64, child: u64, schedule: Option<u64>)
        requires
            self.connected_from(a, parent, child, schedule),
            a.storage == b.storage,
            a.persisted_storage_log == b.persisted_storage_log,
        ensures
            self.connected_from(b, parent, child, schedule),
    {
        assert forall|t: u64| t != parent && t != child implies #[trigger] self.task_unchanged(b, t) by {
            assert(self.task_unchanged(a, t));
        }
    }

    /// Takes the data of task `t` out of storage (empty data where none is held).
    fn take_task(&mut self, t: u64) -> (d: TaskData)
        requires
            old(self).wf(),
        ensures
            final(self).wf(),
            final(self).storage@ == old(self).storage@.remove(t),
            final(self).others_unchanged(old(self), t),
            final(self).registry_unchanged(old(self)),
            final(self).persisted_storage_log == old(self).persisted_storage_log,
            final(self).committed == old(self).committed,
            d.wf(),
            old(self).storage@.contains_key(t) ==> d == old(self).storage@[t],
            !old(self).storage@.contains_key(t) ==> {
                &&& d.in_progress is None
                &&& d.output is None
                &&& d.error is None
                &&& d.cells@.len() == 0
                &&& d.children@.len() == 0
            },
    {
        let r = match self.storage.remove(&t) {
            Some(d) => d,
            None => TaskData::empty(),
        };
        assert(self.storage@.remove(t) =~= old(self).storage@.remove(t));
        r
    }

    fn put_task(&mut self, t: u64, d: TaskData)
        requires
            old(self).wf(),
            d.wf(),
        ensures
            final(self).wf(),
            final(self).storage@ == old(self).storage@.insert(t, d),
            final(self).others_unchanged(old(self), t),
            final(self).registry_unchanged(old(self)),
            final(self).persisted_storage_log == old(self).persisted_storage_log,
            final(self).committed == old(self).committed,
    {
        self.storage.insert(t, d);
        assert(self.storage@.remove(t) =~= old(self).storage@.remove(t));
    }

    /// Records a change of task `t`'s data; transient tasks leave no record.
    fn log_update(&mut self, t: u64, key: ItemKey, added: bool)
        requires
            old(self).wf(),
        ensures
            final(self).wf(),
            final(self).storage == old(self).storage,
            final(self).registry_unchanged(old(self)),
            is_transient_id(t) ==> final(self).persisted_storage_log == old(self).persisted_storage_log,
            final(self).persisted_storage_log@ == old(self).persisted_storage_log@ + logged(t, key, added),
            is_transient_id(t) ==> final(self).committed == old(self).committed,
            !is_transient_id(t) ==> final(self).committed@ == old(self).committed@.push(
                CachedDataUpdate { task: t, key, added },
            ),
    {
        if !is_transient(t) {
            let r = CachedDataUpdate { task: t, key, added };
            self.persisted_storage_log.push(r);
            proof {
                let old_log = old(self).persisted_storage_log@;
                self.committed@ = self.committed@.push(r);
                assert(self.committed@ =~= self.drained@ + self.persisted_storage_log@);
                assert forall|i: int|
                    0 <= i < self.persisted_storage_log@.len() implies !is_transient_id(
                    #[trigger] self.persisted_storage_log@[i].task,
                ) by {
                    if i < old_log.len() {
                        assert(self.persisted_storage_log@[i] == old_log[i]);
                    }
                }
                assert(self.persisted_storage_log@ =~= old_log + logged(t, key, added));
            }
        } else {
            assert(self.persisted_storage_log@ =~= old(self).persisted_storage_log@ + logged(t, key, added));
        }
    }

    fn task_has_child(&self, parent: u64, child: u64) -> (r: bool)
        requires
            self.wf(),
        ensures
            r == self.has_child(parent, child),
    {
        match self.storage.get(&parent) {
            Some(d) => d.has_child(child),
            None => false,
        }
    }

    /// Whether task `t` has neither an in-progress item nor an output.
    fn task_is_new(&self, t: u64) -> (r: bool)
        requires
            self.wf(),
        ensures
            r == (self.in_progress_of(t) is None && self.output_of(t) is None),
    {
        match self.storage.get(&t) {
            Some(d) => d.in_progress.is_none() && d.output.is_none(),
            None => true,
        }
    }

    /// Adds the edge `parent -> child` if absent, and schedules the child if
    /// it has never been scheduled nor produced an output; returns the task
    /// that the host is to schedule. A second call changes nothing.
    pub fn connect_child(&mut self, parent_task: u64, child_task: u64) -> (schedule: Option<u64>)
        requires
            old(self).wf(),
        ensures
            final(self).wf(),
            final(self).registry_unchanged(old(self)),
            final(self).connected_from(old(self), parent_task, child_task, schedule),
            final(self).child_connected(parent_task, child_task),
            old(self).child_connected(parent_task, child_task) ==> {
                &&& final(self).storage@ == old(self).storage@
                &&& final(self).persisted_storage_log == old(self).persisted_storage_log
                &&& schedule is None
            },
            old(self).persisted_storage_log@.is_prefix_of(final(self).persisted_storage_log@),
    {
        let ghost log0 = self.persisted_storage_log@;
        let had_edge = self.task_has_child(parent_task, child_task);
        if !had_edge {
            let mut p = self.take_task(parent_task);
            let ghost old_children = p.children@;
            p.children.push(child_task);
            proof {
                assert(p.children@[old_children.len() as int] == child_task);
                assert forall|i: int, j: int|
                    0 <= i < j < p.children@.len() implies p.children@[i] != p.children@[j] by {
                    if j < old_children.len() {
                        assert(p.children@[i] == old_children[i]);
                        assert(p.children@[j] == old_children[j]);
                    } else {
                        assert(p.children@[i] == old_children[i]);
                    }
                }
                assert(p.children@.contains(child_task));
            }
            self.put_task(parent_task, p);
            self.log_update(parent_task, ItemKey::Child(child_task), true);
        }
        let ghost mid = *self;
        proof {
            assert forall|t: u64| t != parent_task implies #[trigger] mid.task_unchanged(old(self), t) by {
                if !had_edge {
                    assert(mid.storage@.remove(parent_task).contains_key(t) == old(self).storage@.remove(parent_task).contains_key(t));
                    if old(self).storage@.contains_key(t) {
                        assert(mid.storage@.remove(parent_task)[t] == old(self).storage@.remove(parent_task)[t]);
                    }
                }
            }
            if had_edge {
                assert(mid.storage@ == old(self).storage@);
            }
            assert(mid.children_of(parent_task) == (if had_edge {
                old(self).children_of(parent_task)
            } else {
                old(self).children_of(parent_task).push(child_task)
            }));
            assert(mid.in_progress_of(child_task) == old(self).in_progress_of(child_task));
            assert(mid.output_of(child_task) == old(self).output_of(child_task));
        }
        let is_new = self.task_is_new(child_task);
        if is_new {
            let mut c = self.take_task(child_task);
            c.in_progress = Some(
                InProgressState::Scheduled {
                    clean: false,
                    done_event: Event::new(),
                    start_event: Event::new(),
                },
            );
            self.put_task(child_task, c);
            self.log_update(child_task, ItemKey::InProgress, true);
            proof {
                assert forall|t: u64| t != child_task implies #[trigger] self.task_unchanged(&mid, t) by {
                    assert(self.storage@.remove(child_task).contains_key(t) == mid.storage@.remove(child_task).contains_key(t));
                    if mid.storage@.contains_key(t) {
                        assert(self.storage@.remove(child_task)[t] == mid.storage@.remove(child_task)[t]);
                    }
                }
                assert(self.task_unchanged(&mid, parent_task) || parent_task == child_task);
                if parent_task != child_task {
                    assert(self.task_unchanged(&mid, parent_task));
                    assert(self.children_of(parent_task) == mid.children_of(parent_task));
                    assert(mid.task_unchanged(old(self), child_task));
                    assert(mid.children_of(child_task) == old(self).children_of(child_task));
                    assert(self.children_of(child_task) == mid.children_of(child_task));
                }
            }
            assert(log0.is_prefix_of(self.persisted_storage_log@));
            Some(child_task)
        } else {
            assert(log0.is_prefix_of(self.persisted_storage_log@));
            None
        }
    }

    /// Invalidates task `t`. A scheduled task turns unclean, a running one
    /// stale; any other loses its output and error and is scheduled again,
    /// and is then returned for the host to schedule.
    pub fn invalidate(&mut self, task_id: u64) -> (schedule: Option<u64>)
        requires
            old(self).wf(),
        ensures
            final(self).wf(),
            final(self).registry_unchanged(old(self)),
            final(self).others_unchanged(old(self), task_id),
            final(self).kept_cells_and_children(old(self), task_id),
            old(self).persisted_storage_log@.is_prefix_of(final(self).persisted_storage_log@),
            match old(self).in_progress_of(task_id) {
                Some(ip) => {
                    &&& final(self).in_progress_of(task_id) == Some(invalidated(ip))
                    &&& final(self).persisted_storage_log@ == old(self).persisted_storage_log@
                        + logged(task_id, ItemKey::InProgress, true)
                    &&& final(self).output_of(task_id) == old(self).output_of(task_id)
                    &&& final(self).error_of(task_id) == old(self).error_of(task_id)
                    &&& schedule is None
                },
                None => {
                    &&& freshly_scheduled(final(self).in_progress_of(task_id)->0)
                    &&& final(self).in_progress_of(task_id) is Some
                    &&& final(self).output_of(task_id) is None
                    &&& final(self).error_of(task_id) is None
                    &&& schedule == Some(task_id)
                    &&& final(self).persisted_storage_log@ == old(self).persisted_storage_log@ + (
                    if old(self).output_of(task_id) is Some {
                        logged(task_id, ItemKey::Output, false)
                    } else {
                        Seq::empty()
                    }) + (if old(self).error_of(task_id) is Some {
                        logged(task_id, ItemKey::Error, false)
                    } else {
                        Seq::empty()
                    }) + logged(task_id, ItemKey::InProgress, true)
                },
            },
    {
        let ghost log0 = self.persisted_storage_log@;
        let mut d = self.take_task(task_id);
        match d.in_progress {
            Some(InProgressState::Scheduled { clean: _, done_event, start_event }) => {
                d.in_progress = Some(InProgressState::Scheduled { clean: false, done_event, start_event });
                self.put_task(task_id, d);
                self.log_update(task_id, ItemKey::InProgress, true);
                None
            },
            Some(InProgressState::InProgress { clean, stale: _, done_event }) => {
                d.in_progress = Some(InProgressState::InProgress { clean, stale: true, done_event });
                self.put_task(task_id, d);
                self.log_update(task_id, ItemKey::InProgress, true);
                None
            },
            None => {
                let had_output = d.output.is_some();
                let had_error = d.error.is_some();
                d.output = None;
                d.error = None;
                d.in_progress = Some(
                    InProgressState::Scheduled {
                        clean: false,
                        done_event: Event::new(),
                        start_event: Event::new(),
                    },
                );
                self.put_task(task_id, d);
                if had_output {
                    self.log_update(task_id, ItemKey::Output, false);
                }
                if had_error {
                    self.log_update(task_id, ItemKey::Error, false);
                }
                self.log_update(task_id, ItemKey::InProgress, true);
                Some(task_id)
            },
        }
    }

    /// Promotes a scheduled task to running, fires its start event and
    /// says what to run. Does nothing, and returns `None`, unless the task
    /// is scheduled and is a known persistent or transient task.
    pub fn try_start_task_execution(&mut self, task_id: u64) -> (r: Option<StartedExecution>)
        requires
            old(self).wf(),
        ensures
            final(self).wf(),
            final(self).registry_unchanged(old(self)),
            final(self).others_unchanged(old(self), task_id),
            r is Some <==> ((old(self).in_progress_of(task_id) matches Some(
                InProgressState::Scheduled { .. },
            )) && (old(self).task_cache.has_id(task_id) || transient_entries(
                old(self).transient_tasks,
            ).contains_key(task_id))),
            r is None ==> {
                &&& final(self).storage@ == old(self).storage@
                &&& final(self).persisted_storage_log == old(self).persisted_storage_log
            },
            r matches Some(st) ==> {
                &&& old(self).in_progress_of(task_id) matches Some(
                    InProgressState::Scheduled { clean, done_event, start_event },
                ) && final(self).in_progress_of(task_id) == Some(
                    InProgressState::InProgress { clean, stale: false, done_event },
                ) && st.woken@ == start_event.waiting@
                &&& final(self).output_of(task_id) == old(self).output_of(task_id)
                &&& final(self).error_of(task_id) == old(self).error_of(task_id)
                &&& final(self).kept_cells_and_children(old(self), task_id)
                &&& final(self).persisted_storage_log@ == old(self).persisted_storage_log@ + logged(
                    task_id,
                    ItemKey::InProgress,
                    true,
                )
                &&& match st.spec {
                    TaskExecutionSpec::Persistent(fp) => old(self).task_cache.maps(fp@, task_id),
                    TaskExecutionSpec::Transient(kind) => {
                        &&& !old(self).task_cache.has_id(task_id)
                        &&& transient_entries(old(self).transient_tasks).contains_key(task_id)
                        &&& transient_entries(old(self).transient_tasks)[task_id] == kind
                    },
                }
            },
    {
        let scheduled = match self.storage.get(&task_id) {
            Some(d) => match &d.in_progress {
                Some(InProgressState::Scheduled { .. }) => true,
                _ => false,
            },
            None => false,
        };
        if !scheduled {
            return None;
        }
        let spec = match self.task_cache.lookup_reverse(task_id) {
            Some(fp) => TaskExecutionSpec::Persistent(fp.duplicate()),
            None => match transient_table_get(&self.transient_tasks, task_id) {
                Some(kind) => TaskExecutionSpec::Transient(kind),
                None => {
                    return None;
                },
            },
        };
        let mut d = self.take_task(task_id);
        let woken = match d.in_progress.take() {
            Some(InProgressState::Scheduled { clean, done_event, mut start_event }) => {
                let woken = start_event.notify_all();
                d.in_progress = Some(InProgressState::InProgress { clean, stale: false, done_event });
                woken
            },
            other => {
                d.in_progress = other;
                Vec::new()
            },
        };
        self.put_task(task_id, d);
        self.log_update(task_id, ItemKey::InProgress, true);
        Some(StartedExecution { spec, woken })
    }

    /// Ends a run of a running task. A stale task stays in progress, unclean
    /// and with the same done event, and is to be run again; otherwise the
    /// in-progress item goes and its done event wakes its listeners.
    pub fn task_execution_completed(&mut self, task_id: u64) -> (c: Completion)
        requires
            old(self).wf(),
            old(self).in_progress_of(task_id) matches Some(InProgressState::InProgress { .. }),
        ensures
            final(self).wf(),
            final(self).registry_unchanged(old(self)),
            final(self).others_unchanged(old(self), task_id),
            old(self).persisted_storage_log@.is_prefix_of(final(self).persisted_storage_log@),
            c.restart == restarts(old(self).in_progress_of(task_id)->0),
            final(self).in_progress_of(task_id) == after_completion(
                old(self).in_progress_of(task_id)->0,
            ),
            c.restart ==> c.woken@.len() == 0,
            !c.restart ==> c.woken@ == old(self).in_progress_of(task_id)->0.done_event().waiting@,
            final(self).output_of(task_id) == old(self).output_of(task_id),
            final(self).error_of(task_id) == old(self).error_of(task_id),
            final(self).kept_cells_and_children(old(self), task_id),
            final(self).persisted_storage_log@ == old(self).persisted_storage_log@ + logged(
                task_id,
                ItemKey::InProgress,
                c.restart,
            ),
    {
        let mut d = self.take_task(task_id);
        let ip = d.in_progress.take();
        match ip {
            Some(InProgressState::InProgress { clean: _, stale, mut done_event }) => {
                if stale {
                    d.in_progress = Some(
                        InProgressState::InProgress { clean: false, stale: false, done_event },
                    );
                    self.put_task(task_id, d);
                    self.log_update(task_id, ItemKey::InProgress, true);
                    Completion { restart: true, woken: Vec::new() }
                } else {
                    let woken = done_event.notify_all();
                    self.put_task(task_id, d);
                    self.log_update(task_id, ItemKey::InProgress, false);
                    Completion { restart: false, woken }
                }
            },
            _ => {
                self.put_task(task_id, d);
                Completion { restart: false, woken: Vec::new() }
            },
        }
    }

    /// Sets the content of `cell` of task `task_id`, replacing what was
    /// there; all else stays.
    pub fn update_cell(&mut self, task_id: u64, cell: CellId, content: Option<Vec<u8>>)
        requires
            old(self).wf(),
        ensures
            final(self).wf(),
            final(self).registry_unchanged(old(self)),
            final(self).others_unchanged(old(self), task_id),
            old(self).persisted_storage_log@.is_prefix_of(final(self).persisted_storage_log@),
            final(self).storage@.contains_key(task_id),
            final(self).storage@[task_id].has_cell(cell),
            final(self).storage@[task_id].cell_content(cell) == content,
            final(self).persisted_storage_log@ == old(self).persisted_storage_log@ + logged(
                task_id,
                ItemKey::CellData(cell),
                true,
            ),
            old(self).storage@.contains_key(task_id) ==> final(self).storage@[task_id].children
                == old(self).storage@[task_id].children,
            !old(self).storage@.contains_key(task_id) ==> final(self).storage@[task_id].children@.len() == 0,
            forall|other: CellId|
                other != cell ==> (final(self).storage@[task_id].has_cell(other) == (
                old(self).storage@.contains_key(task_id) && old(self).storage@[task_id].has_cell(
                    other,
                ))),
            forall|other: CellId|
                other != cell && old(self).storage@.contains_key(task_id) && old(
                    self,
                ).storage@[task_id].has_cell(other) ==> final(self).storage@[task_id].cell_content(
                    other,
                ) == old(self).storage@[task_id].cell_content(other),
            final(self).in_progress_of(task_id) == old(self).in_progress_of(task_id),
            final(self).output_of(task_id) == old(self).output_of(task_id),
            final(self).error_of(task_id) == old(self).error_of(task_id),
    {
        let mut d = self.take_task(task_id);
        let ghost d0 = d;
        let entry = crate::data::CellEntry { cell, content };
        match d.find_cell(cell) {
            Some(i) => {
                d.cells.set(i, entry);
            },
            None => {
                d.cells.push(entry);
            },
        }
        proof {
            assert forall|i: int, j: int|
                0 <= i < j < d.cells@.len() implies d.cells@[i].cell != d.cells@[j].cell by {
                if j < d0.cells@.len() {
                    assert(d0.cells@[i].cell != d0.cells@[j].cell);
                } else {
                    assert(!d0.has_cell(cell));
                    assert(d.cells@[i] == d0.cells@[i]);
                }
            }
            let k = if d0.has_cell(cell) {
                choose|k: int| 0 <= k < d0.cells@.len() && (#[trigger] d0.cells@[k]).cell == cell
            } else {
                d0.cells@.len() as int
            };
            assert(d.cells@[k].cell == cell);
            assert(d.has_cell(cell));
            let c = choose|i: int| 0 <= i < d.cells@.len() && (#[trigger] d.cells@[i]).cell == cell;
            assert(c == k);
            assert forall|other: CellId| other != cell implies d.has_cell(other) == d0.has_cell(other) && (d0.has_cell(other) ==> d.cell_content(other) == d0.cell_content(other)) by {
                if d0.has_cell(other) {
                    let m = choose|m: int| 0 <= m < d0.cells@.len() && (#[trigger] d0.cells@[m]).cell == other;
                    assert(d.cells@[m] == d0.cells@[m]);
                    let m2 = choose|m2: int| 0 <= m2 < d.cells@.len() && (#[trigger] d.cells@[m2]).cell == other;
                    assert(m2 == m);
                }
                if d.has_cell(other) {
                    let m = choose|m: int| 0 <= m < d.cells@.len() && (#[trigger] d.cells@[m]).cell == other;
                    assert(m != k);
                    assert(d.cells@[m] == d0.cells@[m]);
                }
            }
        }
        self.put_task(task_id, d);
        self.log_update(task_id, ItemKey::CellData(cell), true);
    }

    /// Installs the result of a run as the task's output, with an error
    /// record for a failure or a panic; the in-progress item stays.
    pub fn task_execution_result(
        &mut self,
        task_id: u64,
        result: Result<Result<RawVc, String>, Option<String>>,
    )
        requires
            old(self).wf(),
        ensures
            final(self).wf(),
            final(self).registry_unchanged(old(self)),
            final(self).others_unchanged(old(self), task_id),
            old(self).persisted_storage_log@.is_prefix_of(final(self).persisted_storage_log@),
            final(self).output_of(task_id) == Some(output_for(result)),
            final(self).error_of(task_id) == error_for(result),
            final(self).in_progress_of(task_id) == old(self).in_progress_of(task_id),
            final(self).kept_cells_and_children(old(self), task_id),
            final(self).persisted_storage_log@ == old(self).persisted_storage_log@ + logged(
                task_id,
                ItemKey::Output,
                true,
            ) + (if error_for(result) is Some {
                logged(task_id, ItemKey::Error, true)
            } else if old(self).error_of(task_id) is Some {
                logged(task_id, ItemKey::Error, false)
            } else {
                Seq::empty()
            }),
    {
        let ghost r0 = result;
        let mut d = self.take_task(task_id);
        let had_error = d.error.is_some();
        let (output, error) = match result {
            Ok(Ok(RawVc::TaskCell(t, c))) => (OutputValue::Cell(t, c), None),
            Ok(Ok(RawVc::TaskOutput(t))) => (OutputValue::Output(t), None),
            Ok(Err(m)) => (OutputValue::Error, Some(ErrorRecord { panicked: false, message: Some(m) })),
            Err(m) => (OutputValue::Panic, Some(ErrorRecord { panicked: true, message: m })),
        };
        let has_error = error.is_some();
        d.output = Some(output);
        d.error = error;
        self.put_task(task_id, d);
        self.log_update(task_id, ItemKey::Output, true);
        if has_error {
            self.log_update(task_id, ItemKey::Error, true);
        } else if had_error {
            self.log_update(task_id, ItemKey::Error, false);
        }
    }

    /// Reads a task's output without tracking a dependency.
    pub fn try_read_task_output_untracked(&mut self, task_id: u64, strongly_consistent: bool) -> (r:
        ReadOutput)
        requires
            old(self).wf(),
        ensures
            final(self).wf(),
            final(self).registry_unchanged(old(self)),
            final(self).persisted_storage_log == old(self).persisted_storage_log,
            final(self).committed == old(self).committed,
            final(self).others_unchanged(old(self), task_id),
            final(self).output_of(task_id) == old(self).output_of(task_id),
            final(self).error_of(task_id) == old(self).error_of(task_id),
            match old(self).in_progress_of(task_id) {
                Some(ip) => {
                    let ev = ip.done_event();
                    let ev2 = final(self).in_progress_of(task_id)->0.done_event();
                    &&& r matches ReadOutput::Listen(l)
                    &&& final(self).in_progress_of(task_id) == Some(with_done_event(ip, ev2))
                    &&& final(self).kept_cells_and_children(old(self), task_id)
                    &&& (ev.fired ==> l.ready && ev2 == ev)
                    &&& (!ev.fired ==> !l.ready && l.index == ev.waiting@.len()
                        && ev2.waiting@ == ev.waiting@.push(l.index) && !ev2.fired)
                },
                None => {
                    &&& final(self).storage@ == old(self).storage@
                    &&& (strongly_consistent ==> r is NotYet)
                    &&& (!strongly_consistent ==> match old(self).output_of(task_id) {
                        Some(OutputValue::Cell(t, c)) => r == ReadOutput::Value(RawVc::TaskCell(t, c)),
                        Some(OutputValue::Output(t)) => r == ReadOutput::Value(RawVc::TaskOutput(t)),
                        Some(_) => match old(self).error_of(task_id) {
                            Some(e) => r matches ReadOutput::Failed(f) && f == e,
                            None => r is RecomputeRequired,
                        },
                        None => r is RecomputeRequired,
                    })
                },
            },
    {
        let in_progress = match self.storage.get(&task_id) {
            Some(d) => d.in_progress.is_some(),
            None => false,
        };
        if in_progress {
            let mut d = self.take_task(task_id);
            let ghost d0 = d;
            let l = match d.in_progress.take() {
                Some(InProgressState::Scheduled { clean, mut done_event, start_event }) => {
                    let l = done_event.listen();
                    d.in_progress = Some(InProgressState::Scheduled { clean, done_event, start_event });
                    l
                },
                Some(InProgressState::InProgress { clean, stale, mut done_event }) => {
                    let l = done_event.listen();
                    d.in_progress = Some(InProgressState::InProgress { clean, stale, done_event });
                    l
                },
                None => EventListener { index: 0, ready: true },
            };
            self.put_task(task_id, d);
            return ReadOutput::Listen(l);
        }
        if strongly_consistent {
            return ReadOutput::NotYet;
        }
        match self.storage.get(&task_id) {
            Some(d) => match d.output {
                Some(OutputValue::Cell(t, c)) => ReadOutput::Value(RawVc::TaskCell(t, c)),
                Some(OutputValue::Output(t)) => ReadOutput::Value(RawVc::TaskOutput(t)),
                Some(_) => match &d.error {
                    Some(e) => ReadOutput::Failed(e.duplicate()),
                    None => ReadOutput::RecomputeRequired,
                },
                None => ReadOutput::RecomputeRequired,
            },
            None => ReadOutput::RecomputeRequired,
        }
    }

    /// Reads a cell of a task without tracking a dependency: its typed
    /// content where cached, else `None` (the task is to be recomputed).
    pub fn try_read_task_cell_untracked(&self, task_id: u64, cell: CellId) -> (r: Option<TypedCellContent>)
        requires
            self.wf(),
        ensures
            r is Some <==> (self.storage@.contains_key(task_id) && self.storage@[task_id].has_cell(cell)),
            r matches Some(c) ==> c.type_id == cell.type_id && content_view(c.content) == content_view(
                self.storage@[task_id].cell_content(cell),
            ),
    {
        match self.storage.get(&task_id) {
            Some(d) => match d.find_cell(cell) {
                Some(i) => {
                    proof {
                        let c = choose|k: int| 0 <= k < d.cells@.len() && (#[trigger] d.cells@[k]).cell == cell;
                        assert(c == i as int);
                    }
                    let content = match &d.cells[i].content {
                        Some(bytes) => Some(crate::fingerprint::bytes_copy(bytes)),
                        None => None,
                    };
                    Some(TypedCellContent { type_id: cell.type_id, content })
                },
                None => None,
            },
            None => None,
        }
    }

    /// The id of the persistent task with fingerprint `task_type`, created
    /// on a miss, connected as a child of `parent_task`. Returns the id and
    /// the task for the host to schedule, or `None` when no id is left.
    pub fn get_or_create_persistent_task(&mut self, task_type: TaskFingerprint, parent_task: u64) -> (r:
        Option<(u64, Option<u64>)>)
        requires
            old(self).wf(),
        ensures
            final(self).wf(),
            final(self).transient_task_id_factory == old(self).transient_task_id_factory,
            final(self).transient_tasks == old(self).transient_tasks,
            final(self).coordinator == old(self).coordinator,
            old(self).persisted_storage_log@.is_prefix_of(final(self).persisted_storage_log@),
            r is None <==> (!old(self).task_cache.has_fingerprint(task_type@)
                && old(self).persisted_task_id_factory.free@.len() == 0
                && old(self).persisted_task_id_factory.next == TRANSIENT_TASK_BIT),
            r is None ==> *final(self) == *old(self),
            r matches Some((id, schedule)) ==> {
                &&& !is_transient_id(id)
                &&& final(self).task_cache.maps(task_type@, id)
                &&& final(self).child_connected(parent_task, id)
                &&& final(self).connected_from(old(self), parent_task, id, schedule)
            },
            old(self).task_cache.has_fingerprint(task_type@) ==> {
                &&& r matches Some((id, _)) && old(self).task_cache.maps(task_type@, id)
                &&& final(self).persisted_task_id_factory == old(self).persisted_task_id_factory
                &&& final(self).persisted_task_cache_log == old(self).persisted_task_cache_log
                &&& final(self).task_cache == old(self).task_cache
            },
            !old(self).task_cache.has_fingerprint(task_type@) ==> (r matches Some((id, _)) ==> {
                &&& final(self).persisted_task_id_factory.consumed()
                    == old(self).persisted_task_id_factory.consumed() + 1
                &&& final(self).persisted_task_cache_log@.len()
                    == old(self).persisted_task_cache_log@.len() + 1
                &&& final(self).persisted_task_cache_log@.drop_last()
                    == old(self).persisted_task_cache_log@
                &&& final(self).persisted_task_cache_log@.last().0@ == task_type@
                &&& final(self).persisted_task_cache_log@.last().1 == id
                &&& final(self).task_cache.entries@.drop_last() == old(self).task_cache.entries@
                &&& final(self).task_cache.entries@.last().0@ == task_type@
                &&& final(self).task_cache.entries@.last().1 == id
                &&& !old(self).task_cache.has_id(id)
                &&& !old(self).persisted_task_id_factory.is_allocated(id)
                &&& final(self).persisted_task_id_factory.is_allocated(id)
            }),
    {
        if let Some(task_id) = self.task_cache.lookup_forward(&task_type) {
            let s = self.connect_child(parent_task, task_id);
            proof {
                self.lemma_connected_from_storage(old(self), old(self), parent_task, task_id, s);
                let k = choose|i: int|
                    0 <= i < old(self).task_cache.entries@.len() && (#[trigger] old(self).task_cache.entries@[i]).0@
                        == task_type@ && old(self).task_cache.entries@[i].1 == task_id;
                assert(old(self).persisted_task_id_factory.is_allocated(old(self).task_cache.entries@[k].1));
            }
            return Some((task_id, s));
        }
        let task_id = match self.persisted_task_id_factory.get() {
            Some(id) => id,
            None => {
                return None;
            },
        };
        proof {
            assert forall|i: int| 0 <= i < self.task_cache.entries@.len() implies (#[trigger] self.task_cache.entries@[i]).1
                != task_id by {
                assert(old(self).persisted_task_id_factory.is_allocated(self.task_cache.entries@[i].1));
            }
        }
        let logged = task_type.duplicate();
        let ghost cache0 = self.task_cache;
        match self.task_cache.try_insert(task_type, task_id) {
            Err(existing) => {
                // Another insertion won: the fresh id goes back unused. With
                // the lookup above having missed, this cannot happen here.
                self.persisted_task_id_factory.reuse(task_id);
                let ghost before = *self;
                let s = self.connect_child(parent_task, existing);
                proof {
                    self.lemma_connected_from_storage(&before, old(self), parent_task, existing, s);
                }
                Some((existing, s))
            },
            Ok(()) => {
                proof {
                    assert forall|i: int| 0 <= i < self.task_cache.entries@.len() implies self.persisted_task_id_factory.is_allocated(
                        #[trigger] self.task_cache.entries@[i].1) by {
                        if i < cache0.entries@.len() {
                            assert(self.task_cache.entries@[i] == cache0.entries@[i]);
                        }
                    }
                }
                let ghost log0 = self.persisted_task_cache_log@;
                self.persisted_task_cache_log.push((logged, task_id));
                assert(self.persisted_task_cache_log@.drop_last() =~= log0);
                let ghost before = *self;
                let s = self.connect_child(parent_task, task_id);
                proof {
                    self.lemma_connected_from_storage(&before, old(self), parent_task, task_id, s);
                }
                Some((task_id, s))
            },
        }
    }

    /// Creates a transient task of kind `task_type` and schedules it; the
    /// host is to run the returned id. `None` when no transient id is left.
    pub fn create_transient_task(&mut self, task_type: TransientTaskType) -> (r: Option<u64>)
        requires
            old(self).wf(),
        ensures
            final(self).wf(),
            final(self).persisted_task_id_factory == old(self).persisted_task_id_factory,
            final(self).task_cache == old(self).task_cache,
            final(self).persisted_task_cache_log == old(self).persisted_task_cache_log,
            final(self).persisted_storage_log == old(self).persisted_storage_log,
            final(self).coordinator == old(self).coordinator,
            r is None <==> (old(self).transient_task_id_factory.free@.len() == 0
                && old(self).transient_task_id_factory.next == MAX_TASK_ID + 1),
            r is None ==> *final(self) == *old(self),
            r matches Some(id) ==> {
                &&& is_transient_id(id)
                &&& TRANSIENT_TASK_BIT <= id <= MAX_TASK_ID
                &&& !old(self).transient_task_id_factory.is_allocated(id)
                &&& !old(self).task_cache.has_id(id)
                &&& transient_entries(final(self).transient_tasks) == transient_entries(
                    old(self).transient_tasks,
                ).insert(id, task_type)
                &&& final(self).in_progress_of(id) is Some
                &&& freshly_scheduled(final(self).in_progress_of(id)->0)
                &&& final(self).output_of(id) is None
                &&& final(self).others_unchanged(old(self), id)
            },
    {
        let task_id = match self.transient_task_id_factory.get() {
            Some(id) => id,
            None => {
                return None;
            },
        };
        transient_table_insert(&mut self.transient_tasks, task_id, task_type);
        let mut d = TaskData::empty();
        d.in_progress = Some(
            InProgressState::Scheduled {
                clean: false,
                done_event: Event::new(),
                start_event: Event::new(),
            },
        );
        self.put_task(task_id, d);
        self.log_update(task_id, ItemKey::InProgress, true);
        Some(task_id)
    }

    /// Invalidates each of `tasks` in turn; returns the tasks for the host
    /// to schedule, each once.
    pub fn invalidate_tasks(&mut self, tasks: &[u64]) -> (scheduled: Vec<u64>)
        requires
            old(self).wf(),
        ensures
            final(self).wf(),
            final(self).registry_unchanged(old(self)),
            old(self).persisted_storage_log@.is_prefix_of(final(self).persisted_storage_log@),
            forall|t: u64| #[trigger] tasks@.contains(t) ==> final(self).invalidated_from(old(self), t),
            tasks@.len() == 0 ==> final(self).storage@ == old(self).storage@
                && final(self).persisted_storage_log@ == old(self).persisted_storage_log@,
            forall|t: u64|
                !(#[trigger] tasks@.contains(t)) ==> final(self).storage@.contains_key(t)
                    == old(self).storage@.contains_key(t) && (old(self).storage@.contains_key(t)
                    ==> final(self).storage@[t] == old(self).storage@[t]),
            forall|t: u64|
                #[trigger] scheduled@.contains(t) <==> (tasks@.contains(t) && old(self).in_progress_of(
                    t,
                ) is None),
    {
        let mut scheduled: Vec<u64> = Vec::new();
        let mut i: usize = 0;
        while i < tasks.len()
            invariant
                self.wf(),
                self.registry_unchanged(old(self)),
                i <= tasks@.len(),
                old(self).persisted_storage_log@.is_prefix_of(self.persisted_storage_log@),
                forall|t: u64|
                    #[trigger] tasks@.subrange(0, i as int).contains(t) ==> self.invalidated_from(old(self), t),
                i == 0 ==> self.storage@ == old(self).storage@
                    && self.persisted_storage_log@ == old(self).persisted_storage_log@,
                forall|t: u64|
                    !(#[trigger] tasks@.subrange(0, i as int).contains(t)) ==> self.storage@.contains_key(t)
                        == old(self).storage@.contains_key(t) && (old(self).storage@.contains_key(t)
                        ==> self.storage@[t] == old(self).storage@[t]),
                forall|t: u64|
                    #[trigger] scheduled@.contains(t) <==> (tasks@.subrange(0, i as int).contains(t)
                        && old(self).in_progress_of(t) is None),
            decreases tasks@.len() - i,
        {
            let t = tasks[i];
            let ghost before = *self;
            let ghost sched0 = scheduled@;
            let ghost pre = tasks@.subrange(0, i as int);
            let ghost post = tasks@.subrange(0, i + 1);
            let s = self.invalidate(t);
            if let Some(id) = s {
                scheduled.push(id);
            }
            proof {
                assert(post =~= pre.push(t));
                assert(s is Some ==> scheduled@ == sched0.push(t));
                assert(s is None ==> scheduled@ == sched0);
                assert forall|x: u64| x != t implies post.contains(x) == pre.contains(x)
                    && scheduled@.contains(x) == sched0.contains(x) && (self.storage@.contains_key(x)
                    == before.storage@.contains_key(x) && (before.storage@.contains_key(x)
                    ==> self.storage@[x] == before.storage@[x])) by {
                    assert(self.storage@.remove(t).contains_key(x) == before.storage@.remove(t).contains_key(x));
                    if before.storage@.contains_key(x) {
                        assert(self.storage@.remove(t)[x] == before.storage@.remove(t)[x]);
                    }
                    if post.contains(x) {
                        let k = choose|k: int| 0 <= k < post.len() && post[k] == x;
                        assert(pre[k] == x);
                    }
                    if pre.contains(x) {
                        let k = choose|k: int| 0 <= k < pre.len() && pre[k] == x;
                        assert(post[k] == x);
                    }
                    if sched0.contains(x) {
                        let k = choose|k: int| 0 <= k < sched0.len() && sched0[k] == x;
                        assert(scheduled@[k] == x);
                    }
                    if scheduled@.contains(x) {
                        let k = choose|k: int| 0 <= k < scheduled@.len() && scheduled@[k] == x;
                        assert(sched0[k] == x);
                    }
                }
                assert(post[i as int] == t);
                assert(post.contains(t));
                if s is Some {
                    assert(scheduled@[sched0.len() as int] == t);
                }
                if !pre.contains(t) {
                    assert(before.in_progress_of(t) == old(self).in_progress_of(t));
                }
                assert forall|x: u64| #[trigger] post.contains(x) implies self.invalidated_from(old(self), x) by {
                    if x != t {
                        assert(pre.contains(x));
                        assert(before.invalidated_from(old(self), x));
                    } else if pre.contains(t) {
                        assert(before.invalidated_from(old(self), t));
                    } else {
                        assert(before.storage@.contains_key(t) == old(self).storage@.contains_key(t));
                    }
                }
                assert forall|x: u64| #[trigger] scheduled@.contains(x) <==> (post.contains(x)
                    && old(self).in_progress_of(x) is None) by {
                    if x == t {
                        if pre.contains(t) {
                            assert(before.invalidated_from(old(self), t));
                            assert(before.in_progress_of(t) is Some);
                        }
                        if pre.contains(t) && old(self).in_progress_of(t) is None {
                            assert(sched0.contains(t));
                        }
                    }
                }
            }
            i = i + 1;
        }
        assert(tasks@.subrange(0, tasks@.len() as int) =~= tasks@);
        scheduled
    }

    /// Drains both change logs, where the barrier holds (a snapshot is
    /// pending and no operation runs); `None` otherwise.
    pub fn snapshot(&mut self) -> (r: Option<(Vec<(TaskFingerprint, u64)>, Vec<CachedDataUpdate>)>)
        requires
            old(self).wf(),
        ensures
            final(self).wf(),
            final(self).storage == old(self).storage,
            final(self).task_cache == old(self).task_cache,
            final(self).coordinator == old(self).coordinator,
            final(self).committed == old(self).committed,
            r is Some <==> old(self).coordinator.quiescent(),
            r is None ==> *final(self) == *old(self),
            r matches Some((cache, updates)) ==> {
                &&& cache@ == old(self).persisted_task_cache_log@
                &&& updates@ == old(self).persisted_storage_log@
                &&& final(self).persisted_task_cache_log@.len() == 0
                &&& final(self).persisted_storage_log@.len() == 0
                &&& final(self).drained@ == old(self).drained@ + updates@
                &&& final(self).drained@.is_prefix_of(final(self).committed@)
            },
    {
        if !((self.coordinator.in_progress_operations & crate::snapshot::SNAPSHOT_REQUESTED_BIT) != 0
            && self.coordinator.in_progress_operations == crate::snapshot::SNAPSHOT_REQUESTED_BIT) {
            proof {
                let v = self.coordinator.in_progress_operations;
                assert((v & crate::snapshot::SNAPSHOT_REQUESTED_BIT != 0 && (v & !crate::snapshot::SNAPSHOT_REQUESTED_BIT) == 0)
                    == (v == crate::snapshot::SNAPSHOT_REQUESTED_BIT)) by (bit_vector);
            }
            return None;
        }
        proof {
            let v = self.coordinator.in_progress_operations;
            assert((v & crate::snapshot::SNAPSHOT_REQUESTED_BIT != 0 && (v & !crate::snapshot::SNAPSHOT_REQUESTED_BIT) == 0)
                == (v == crate::snapshot::SNAPSHOT_REQUESTED_BIT)) by (bit_vector);
        }
        let mut cache: Vec<(TaskFingerprint, u64)> = Vec::new();
        let mut updates: Vec<CachedDataUpdate> = Vec::new();
        std::mem::swap(&mut cache, &mut self.persisted_task_cache_log);
        std::mem::swap(&mut updates, &mut self.persisted_storage_log);
        proof {
            self.drained@ = self.drained@ + updates@;
            assert(self.committed@ =~= self.drained@ + self.persisted_storage_log@);
            assert(self.drained@.is_prefix_of(self.committed@));
        }
        Some((cache, updates))
    }

    /// The fingerprint of persistent task `task_id`, if it is one.
    pub fn task_type(&self, task_id: u64) -> (r: Option<TaskFingerprint>)
        requires
            self.wf(),
        ensures
            match r {
                Some(fp) => self.task_cache.maps(fp@, task_id),
                None => !self.task_cache.has_id(task_id),
            },
    {
        match self.task_cache.lookup_reverse(task_id) {
            Some(fp) => Some(fp.duplicate()),
            None => None,
        }
    }
}

/// No record of the storage log and no entry of the fingerprint map names a
/// transient task: transient tasks never reach persistence.
pub proof fn lemma_transient_isolation(b: &TurboTasksBackend)
    requires
        b.wf(),
    ensures
        forall|i: int|
            0 <= i < b.persisted_storage_log@.len() ==> !is_transient_id(
                #[trigger] b.persisted_storage_log@[i].task,
            ),
        forall|i: int|
            0 <= i < b.task_cache.entries@.len() ==> !is_transient_id(
                #[trigger] b.task_cache.entries@[i].1,
            ),
{
    assert forall|i: int| 0 <= i < b.task_cache.entries@.len() implies !is_transient_id(
        #[trigger] b.task_cache.entries@[i].1,
    ) by {
        assert(b.persisted_task_id_factory.is_allocated(b.task_cache.entries@[i].1));
    }
}

/// What snapshots have drained is a prefix of the ordered stream of
/// committed records, and the pending log is exactly the rest of it.
pub proof fn lemma_log_cut(b: &TurboTasksBackend)
    requires
        b.wf(),
    ensures
        b.drained@.is_prefix_of(b.committed@),
        b.committed@.skip(b.drained@.len() as int) == b.persisted_storage_log@,
{
    assert(b.committed@.skip(b.drained@.len() as int) =~= b.persisted_storage_log@);
}

} // verus!
