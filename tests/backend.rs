use turbo_tasks_backend::backend::{Completion, ReadOutput, TaskExecutionSpec, TurboTasksBackend};
use turbo_tasks_backend::ids::MAX_TASK_ID;
use turbo_tasks_backend::data::{
    CellId, InProgressState, ItemKey, OutputValue, RawVc, TransientTaskType,
};
use turbo_tasks_backend::event::Event;
use turbo_tasks_backend::fingerprint::TaskFingerprint;
use turbo_tasks_backend::ids::{is_transient, IdFactory, TRANSIENT_TASK_BIT};
use turbo_tasks_backend::snapshot::{AnyOperation, OperationKind, SnapshotCoordinator, SuspendDecision};

fn native(fn_type: u32, arg: &[u8]) -> TaskFingerprint {
    TaskFingerprint::Native { fn_type, this: None, arg: arg.to_vec() }
}

fn root(b: &mut TurboTasksBackend) -> u64 {
    b.create_transient_task(TransientTaskType::Root).unwrap()
}

fn children(b: &TurboTasksBackend, t: u64) -> Vec<u64> {
    b.storage.get(&t).map(|d| d.children.clone()).unwrap_or_default()
}

fn is_running(b: &TurboTasksBackend, t: u64) -> bool {
    matches!(
        b.storage.get(&t).and_then(|d| d.in_progress.as_ref()),
        Some(InProgressState::InProgress { .. })
    )
}

fn started(b: &mut TurboTasksBackend, t: u64) {
    assert!(b.try_start_task_execution(t).is_some());
}

#[test]
fn cache_hit_returns_same_task() {
    let mut b = TurboTasksBackend::new();
    let p1 = root(&mut b);
    let p2 = root(&mut b);
    let (t1, s1) = b.get_or_create_persistent_task(native(7, b"x"), p1).unwrap();
    let (t2, s2) = b.get_or_create_persistent_task(native(7, b"x"), p2).unwrap();
    assert_eq!(t1, t2);
    assert_eq!(s1, Some(t1));
    assert_eq!(s2, None);
    assert!(children(&b, p1).contains(&t1));
    assert!(children(&b, p2).contains(&t1));
    assert_eq!(b.persisted_task_cache_log.len(), 1);
    assert_eq!(b.persisted_task_id_factory.next, 2);
}

#[test]
fn distinct_fingerprints_get_distinct_ids() {
    let mut b = TurboTasksBackend::new();
    let p = root(&mut b);
    let (a, _) = b.get_or_create_persistent_task(native(7, b"x"), p).unwrap();
    let (c, _) = b.get_or_create_persistent_task(native(7, b"y"), p).unwrap();
    let trait_fp = TaskFingerprint::ResolveTrait {
        trait_type: 7,
        method_name: String::from("m"),
        this: Some(RawVc::TaskOutput(a)),
        arg: b"x".to_vec(),
    };
    let (d, _) = b.get_or_create_persistent_task(trait_fp, p).unwrap();
    assert_eq!(a, 1);
    assert_eq!(c, 2);
    assert_eq!(d, 3);
    assert_eq!(b.persisted_task_cache_log.len(), 3);
    assert!(b.task_type(2).unwrap().same_as(&native(7, b"y")));
    assert!(b.task_type(p).is_none());
}

#[test]
fn execute_and_read() {
    let mut b = TurboTasksBackend::new();
    let p = root(&mut b);
    let (t, _) = b.get_or_create_persistent_task(native(1, b""), p).unwrap();
    let c0 = CellId { type_id: 3, index: 0 };
    match b.try_start_task_execution(t).map(|st| st.spec) {
        Some(TaskExecutionSpec::Persistent(fp)) => assert!(fp.same_as(&native(1, b""))),
        _ => panic!("expected a persistent task"),
    }
    b.task_execution_result(t, Ok(Ok(RawVc::TaskCell(t, c0))));
    let Completion { restart, woken } = b.task_execution_completed(t);
    assert!(!restart);
    assert!(woken.is_empty());
    match b.try_read_task_output_untracked(t, false) {
        ReadOutput::Value(v) => assert_eq!(v, RawVc::TaskCell(t, c0)),
        _ => panic!("expected a value"),
    }
}

#[test]
fn read_during_execution_waits() {
    let mut b = TurboTasksBackend::new();
    let t = root(&mut b);
    match b.try_start_task_execution(t).map(|st| st.spec) {
        Some(TaskExecutionSpec::Transient(k)) => assert_eq!(k, TransientTaskType::Root),
        _ => panic!("expected a transient task"),
    }
    let l = match b.try_read_task_output_untracked(t, false) {
        ReadOutput::Listen(l) => l,
        _ => panic!("expected a listener"),
    };
    assert!(!l.ready);
    b.task_execution_result(t, Ok(Ok(RawVc::TaskOutput(5))));
    let done = b.task_execution_completed(t);
    assert!(!done.restart);
    assert_eq!(done.woken, vec![l.index]);
    match b.try_read_task_output_untracked(t, false) {
        ReadOutput::Value(v) => assert_eq!(v, RawVc::TaskOutput(5)),
        _ => panic!("expected a value"),
    }
}

#[test]
fn invalidate_during_execution_reruns() {
    let mut b = TurboTasksBackend::new();
    let t = root(&mut b);
    started(&mut b, t);
    let l = match b.try_read_task_output_untracked(t, false) {
        ReadOutput::Listen(l) => l,
        _ => panic!("expected a listener"),
    };
    assert_eq!(b.invalidate(t), None);
    b.task_execution_result(t, Ok(Ok(RawVc::TaskOutput(1))));
    let first = b.task_execution_completed(t);
    assert!(first.restart);
    assert!(first.woken.is_empty());
    match b.storage.get(&t).unwrap().in_progress.as_ref() {
        Some(InProgressState::InProgress { clean, stale, done_event }) => {
            assert!(!clean);
            assert!(!stale);
            assert_eq!(done_event.waiting, vec![l.index]);
        }
        _ => panic!("expected the task to stay in progress"),
    }
    let second = b.task_execution_completed(t);
    assert!(!second.restart);
    assert_eq!(second.woken, vec![l.index]);
}

#[test]
fn snapshot_barrier() {
    let mut b = TurboTasksBackend::new();
    let p = root(&mut b);
    let (t, _) = b.get_or_create_persistent_task(native(2, b"a"), p).unwrap();
    let cell = CellId { type_id: 1, index: 0 };
    let op = AnyOperation { kind: OperationKind::UpdateCell { task: t, cell }, step: 0 };
    assert!(b.coordinator.start_operation());
    b.update_cell(t, cell, Some(vec![1]));
    assert!(b.snapshot().is_none());
    assert!(!b.coordinator.request_snapshot());
    assert!(!b.coordinator.start_operation());
    assert_eq!(b.coordinator.operation_suspend_point(op), SuspendDecision::Suspended { notify: true });
    assert_eq!(b.coordinator.snapshot_request.suspended_operations, vec![op]);
    let before = b.persisted_storage_log.len();
    let (cache, updates) = b.snapshot().unwrap();
    assert_eq!(cache.len(), 1);
    assert_eq!(updates.len(), before);
    assert!(b.persisted_storage_log.is_empty());
    assert!(b.persisted_task_cache_log.is_empty());
    b.coordinator.complete_snapshot();
    b.coordinator.resume_operation(op);
    assert!(b.coordinator.snapshot_request.suspended_operations.is_empty());
    assert_eq!(b.coordinator.operation_suspend_point(op), SuspendDecision::Continue);
    b.update_cell(t, cell, Some(vec![2]));
    assert_eq!(b.persisted_storage_log.len(), 1);
    assert_eq!(b.persisted_storage_log[0].key, ItemKey::CellData(cell));
    assert!(!b.coordinator.finish_operation());
}

#[test]
fn panic_is_reported() {
    let mut b = TurboTasksBackend::new();
    let t = root(&mut b);
    started(&mut b, t);
    b.task_execution_result(t, Err(Some(String::from("boom"))));
    {
        let d = b.storage.get(&t).unwrap();
        assert_eq!(d.output, Some(OutputValue::Panic));
        let e = d.error.as_ref().unwrap();
        assert!(e.panicked);
        assert_eq!(e.message.as_deref(), Some("boom"));
    }
    b.task_execution_completed(t);
    match b.try_read_task_output_untracked(t, false) {
        ReadOutput::Failed(e) => assert_eq!(e.message.as_deref(), Some("boom")),
        _ => panic!("expected an error"),
    }
}

#[test]
fn task_error_is_reported() {
    let mut b = TurboTasksBackend::new();
    let t = root(&mut b);
    started(&mut b, t);
    b.task_execution_result(t, Ok(Err(String::from("bad input"))));
    b.task_execution_completed(t);
    assert_eq!(b.storage.get(&t).unwrap().output, Some(OutputValue::Error));
    match b.try_read_task_output_untracked(t, false) {
        ReadOutput::Failed(e) => {
            assert!(!e.panicked);
            assert_eq!(e.message.as_deref(), Some("bad input"));
        }
        _ => panic!("expected an error"),
    }
}

#[test]
fn read_without_output_requires_recompute() {
    let mut b = TurboTasksBackend::new();
    assert!(matches!(b.try_read_task_output_untracked(42, false), ReadOutput::RecomputeRequired));
    assert!(matches!(b.try_read_task_output_untracked(42, true), ReadOutput::NotYet));
}

#[test]
fn connect_child_twice_is_idempotent() {
    let mut b = TurboTasksBackend::new();
    assert_eq!(b.connect_child(1, 2), Some(2));
    let log = b.persisted_storage_log.clone();
    let kids = children(&b, 1);
    assert_eq!(b.connect_child(1, 2), None);
    assert_eq!(b.persisted_storage_log, log);
    assert_eq!(children(&b, 1), kids);
    assert_eq!(kids, vec![2]);
    assert_eq!(b.storage.len(), 2);
}

#[test]
fn transient_tasks_leave_no_log() {
    let mut b = TurboTasksBackend::new();
    let t = b.create_transient_task(TransientTaskType::Once).unwrap();
    assert!(is_transient(t));
    assert_eq!(t, TRANSIENT_TASK_BIT);
    started(&mut b, t);
    b.update_cell(t, CellId { type_id: 1, index: 1 }, None);
    b.task_execution_result(t, Ok(Ok(RawVc::TaskOutput(t))));
    b.task_execution_completed(t);
    b.invalidate(t);
    assert!(b.persisted_storage_log.is_empty());
    let (p, _) = b.get_or_create_persistent_task(native(9, b"z"), t).unwrap();
    assert!(!is_transient(p));
    assert!(b.persisted_storage_log.iter().all(|r| !is_transient(r.task)));
    assert_eq!(b.persisted_storage_log.len(), 1);
}

#[test]
fn invalidate_settled_task_reschedules() {
    let mut b = TurboTasksBackend::new();
    let t = root(&mut b);
    started(&mut b, t);
    b.task_execution_result(t, Ok(Err(String::from("e"))));
    b.task_execution_completed(t);
    assert_eq!(b.invalidate(t), Some(t));
    let d = b.storage.get(&t).unwrap();
    assert!(d.output.is_none());
    assert!(d.error.is_none());
    assert!(matches!(d.in_progress, Some(InProgressState::Scheduled { clean: false, .. })));
    assert!(!is_running(&b, t));
}

#[test]
fn invalidate_scheduled_task_marks_unclean() {
    let mut b = TurboTasksBackend::new();
    let t = root(&mut b);
    assert_eq!(b.invalidate(t), None);
    assert!(b.try_start_task_execution(t).is_some());
    assert!(b.try_start_task_execution(t).is_none());
    assert!(is_running(&b, t));
}

#[test]
fn invalidate_many_schedules_each_once() {
    let mut b = TurboTasksBackend::new();
    let a = root(&mut b);
    started(&mut b, a);
    b.task_execution_result(a, Ok(Ok(RawVc::TaskOutput(1))));
    b.task_execution_completed(a);
    let scheduled = b.invalidate_tasks(&[a, 77, a, 77]);
    assert_eq!(scheduled, vec![a, 77]);
}

#[test]
fn cells_update_and_read() {
    let mut b = TurboTasksBackend::new();
    let c0 = CellId { type_id: 4, index: 0 };
    let c1 = CellId { type_id: 4, index: 1 };
    assert!(b.try_read_task_cell_untracked(1, c0).is_none());
    b.update_cell(1, c0, Some(vec![1, 2]));
    b.update_cell(1, c1, Some(vec![3]));
    b.update_cell(1, c0, None);
    let r0 = b.try_read_task_cell_untracked(1, c0).unwrap();
    assert_eq!(r0.type_id, 4);
    assert_eq!(r0.content, None);
    let r1 = b.try_read_task_cell_untracked(1, c1).unwrap();
    assert_eq!(r1.content, Some(vec![3]));
    assert_eq!(b.storage.get(&1).unwrap().cells.len(), 2);
    assert_eq!(b.persisted_storage_log.len(), 3);
}

#[test]
fn event_listeners_before_and_after_fire() {
    let mut e = Event::new();
    let a = e.listen();
    let c = e.listen();
    assert!(!a.ready && !c.ready);
    assert_eq!((a.index, c.index), (0, 1));
    assert_eq!(e.notify_all(), vec![0, 1]);
    assert!(e.listen().ready);
    assert!(e.notify_all().is_empty());
}

#[test]
fn id_factory_reuses_and_exhausts() {
    let mut f = IdFactory::new_with_range(5, 6);
    assert_eq!(f.get(), Some(5));
    assert_eq!(f.get(), Some(6));
    assert_eq!(f.get(), None);
    f.reuse(5);
    assert_eq!(f.get(), Some(5));
    assert_eq!(f.get(), None);
}

#[test]
fn coordinator_counts_operations() {
    let mut c = SnapshotCoordinator::new();
    assert!(c.start_operation());
    assert!(c.start_operation());
    assert!(!c.suspending_requested());
    assert!(!c.request_snapshot());
    assert!(c.suspending_requested());
    assert!(!c.finish_operation());
    assert!(c.finish_operation());
    c.complete_snapshot();
    assert!(!c.suspending_requested());
    assert_eq!(c.in_progress_operations, 0);
    assert!(c.request_snapshot());
}

#[test]
fn start_fires_start_event_and_logs_once() {
    let mut b = TurboTasksBackend::new();
    let p = root(&mut b);
    let (t, _) = b.get_or_create_persistent_task(native(5, b"s"), p).unwrap();
    if let Some(InProgressState::Scheduled { start_event, .. }) =
        b.storage.get_mut(&t).unwrap().in_progress.as_mut()
    {
        start_event.listen();
        start_event.listen();
    }
    let before = b.persisted_storage_log.len();
    let st = b.try_start_task_execution(t).unwrap();
    assert_eq!(st.woken, vec![0, 1]);
    assert_eq!(b.persisted_storage_log.len(), before + 1);
    assert_eq!(b.persisted_storage_log[before].key, ItemKey::InProgress);
    assert!(b.try_start_task_execution(t).is_none());
}

#[test]
fn unknown_scheduled_task_does_not_start() {
    let mut b = TurboTasksBackend::new();
    assert_eq!(b.connect_child(1, 9), Some(9));
    assert!(b.try_start_task_execution(9).is_none());
    assert!(!is_running(&b, 9));
}

#[test]
fn connect_child_keeps_parent_data() {
    let mut b = TurboTasksBackend::new();
    let c0 = CellId { type_id: 1, index: 0 };
    b.update_cell(1, c0, Some(vec![7]));
    b.connect_child(1, 2);
    b.connect_child(1, 3);
    assert_eq!(children(&b, 1), vec![2, 3]);
    assert_eq!(b.try_read_task_cell_untracked(1, c0).unwrap().content, Some(vec![7]));
    let keys: Vec<ItemKey> = b.persisted_storage_log.iter().map(|r| r.key).collect();
    assert_eq!(
        keys,
        vec![
            ItemKey::CellData(c0),
            ItemKey::Child(2),
            ItemKey::InProgress,
            ItemKey::Child(3),
            ItemKey::InProgress
        ]
    );
}

#[test]
fn second_parent_keeps_first_edge() {
    let mut b = TurboTasksBackend::new();
    let (t, _) = b.get_or_create_persistent_task(native(1, b"q"), 10).unwrap();
    let (u, _) = b.get_or_create_persistent_task(native(1, b"q"), 11).unwrap();
    assert_eq!(t, u);
    assert_eq!(children(&b, 10), vec![t]);
    assert_eq!(children(&b, 11), vec![t]);
}

#[test]
fn invalidate_twice_equals_once() {
    let mut b = TurboTasksBackend::new();
    let t = root(&mut b);
    started(&mut b, t);
    b.invalidate(t);
    let log = b.persisted_storage_log.len();
    b.invalidate(t);
    assert_eq!(b.persisted_storage_log.len(), log);
    match b.storage.get(&t).unwrap().in_progress.as_ref() {
        Some(InProgressState::InProgress { stale, .. }) => assert!(*stale),
        _ => panic!("expected a running task"),
    }
    assert!(b.invalidate_tasks(&[]).is_empty());
}

#[test]
fn transient_ids_stay_in_range() {
    let mut b = TurboTasksBackend::new();
    let a = root(&mut b);
    let c = root(&mut b);
    assert!(a >= TRANSIENT_TASK_BIT && a <= MAX_TASK_ID);
    assert_eq!(c, a + 1);
    assert!(b.task_type(a).is_none());
}

#[test]
fn resume_restores_suspended_list() {
    let mut c = SnapshotCoordinator::new();
    let op = AnyOperation { kind: OperationKind::Invalidate { task: 3 }, step: 1 };
    let other = AnyOperation { kind: OperationKind::UpdateOutput { task: 4 }, step: 0 };
    assert!(c.start_operation());
    assert!(c.start_operation());
    c.request_snapshot();
    assert_eq!(c.operation_suspend_point(op), SuspendDecision::Suspended { notify: false });
    assert_eq!(c.operation_suspend_point(other), SuspendDecision::Suspended { notify: true });
    c.complete_snapshot();
    c.resume_operation(op);
    assert_eq!(c.snapshot_request.suspended_operations, vec![other]);
    c.resume_operation(other);
    assert!(c.snapshot_request.suspended_operations.is_empty());
}
