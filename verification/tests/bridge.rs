use php_tokio::borrow_unchecked::borrow_unchecked;
use php_tokio::BridgeError;
use php_tokio::EventLoop;
use php_tokio::HostEnv;
use php_tokio::SuspensionHandle;

fn ready_env() -> HostEnv {
    HostEnv { has_suspension_getter: true, has_resume: true, pipe: Some((3, 4)) }
}

fn handle(token: u64) -> SuspensionHandle {
    SuspensionHandle { token }
}

#[test]
fn init_returns_read_descriptor() {
    let mut slot: Option<EventLoop<u64>> = None;
    let fd = EventLoop::init(&mut slot, &ready_env()).unwrap();
    assert_eq!(fd, 3);
    assert!(slot.is_some());
    let ev = slot.as_ref().unwrap();
    assert_eq!(ev.notify_receiver_fd(), 3);
    assert_eq!(ev.notify_sender_fd(), 4);
    assert_eq!(ev.parked_count(), 0);
    assert_eq!(ev.next_id_value(), 0);
}

#[test]
fn init_is_idempotent() {
    let mut slot: Option<EventLoop<u64>> = None;
    let fd = EventLoop::init(&mut slot, &ready_env()).unwrap();
    let id = slot.as_mut().unwrap().suspend_on(handle(9));
    // A second init returns the existing descriptor and touches nothing,
    // even when the environment would now refuse a fresh initialization.
    let broken = HostEnv { has_suspension_getter: false, has_resume: false, pipe: None };
    let fd_again = EventLoop::init(&mut slot, &broken).unwrap();
    assert_eq!(fd_again, fd);
    assert!(slot.as_ref().unwrap().is_parked(id));
    assert_eq!(slot.as_ref().unwrap().parked_count(), 1);
}

#[test]
fn scenario_delayed_42() {
    // A computation resolves to 42 after a delay: the bridge parks the
    // coroutine, a single wakeup hands back its handle, and the coroutine
    // claims 42; the table is empty afterward.
    let mut slot: Option<EventLoop<u64>> = None;
    EventLoop::init(&mut slot, &ready_env()).unwrap();
    let ev = slot.as_mut().unwrap();
    let id = ev.suspend_on(handle(7));
    assert!(ev.is_parked(id));
    assert_eq!(ev.parked_count(), 1);

    let handles = ev.wakeup(vec![(id, 42u64)]).unwrap();
    assert_eq!(handles, vec![handle(7)]);
    assert_eq!(ev.take_result(id).unwrap(), 42);
    assert_eq!(ev.parked_count(), 0);
    assert!(!ev.has_result(id));
}

#[test]
fn scenario_second_finishes_first() {
    // Two operations parked as ids 0 and 1; the task for id 1 finishes
    // first; one wakeup resumes only id 1 with its own result, and the
    // table afterward holds only id 0.
    let mut slot: Option<EventLoop<&str>> = None;
    EventLoop::init(&mut slot, &ready_env()).unwrap();
    let ev = slot.as_mut().unwrap();
    let id0 = ev.suspend_on(handle(100));
    let id1 = ev.suspend_on(handle(101));
    assert_eq!(id0, 0);
    assert_eq!(id1, 1);

    let handles = ev.wakeup(vec![(id1, "second")]).unwrap();
    assert_eq!(handles, vec![handle(101)]);
    assert_eq!(ev.take_result(id1).unwrap(), "second");
    assert!(ev.is_parked(id0));
    assert!(!ev.is_parked(id1));
    assert_eq!(ev.parked_count(), 1);
}

#[test]
fn scenario_capability_appears_later() {
    // The host capability is absent: init fails with a descriptive error
    // and installs nothing; once the capability is available, init succeeds.
    let mut slot: Option<EventLoop<u64>> = None;
    let absent = HostEnv { has_suspension_getter: false, has_resume: true, pipe: Some((3, 4)) };
    let err = EventLoop::init(&mut slot, &absent).unwrap_err();
    assert_eq!(err, BridgeError::MissingSuspensionGetter);
    assert_eq!(err.message(), "host cannot provide the current suspension handle");
    assert!(slot.is_none());

    let fd = EventLoop::init(&mut slot, &ready_env()).unwrap();
    assert_eq!(fd, 3);
    assert!(slot.is_some());
}

#[test]
fn missing_resume_is_reported() {
    let mut slot: Option<EventLoop<u64>> = None;
    let env = HostEnv { has_suspension_getter: true, has_resume: false, pipe: Some((3, 4)) };
    let err = EventLoop::init(&mut slot, &env).unwrap_err();
    assert_eq!(err, BridgeError::MissingResume);
    assert_eq!(err.message(), "host cannot resume a suspension handle");
    assert!(slot.is_none());
}

#[test]
fn failed_pipe_is_reported() {
    let mut slot: Option<EventLoop<u64>> = None;
    let env = HostEnv { has_suspension_getter: true, has_resume: true, pipe: None };
    let err = EventLoop::init(&mut slot, &env).unwrap_err();
    assert_eq!(err, BridgeError::PipeCreation);
    assert_eq!(err.message(), "could not create the notification pipe");
    assert!(slot.is_none());
}

#[test]
fn many_operations_each_get_their_own_result() {
    // Several concurrently suspended operations, completing out of
    // submission order: each resumes with exactly its own result.
    let mut slot: Option<EventLoop<String>> = None;
    EventLoop::init(&mut slot, &ready_env()).unwrap();
    let ev = slot.as_mut().unwrap();
    let a = ev.suspend_on(handle(10));
    let b = ev.suspend_on(handle(11));
    let c = ev.suspend_on(handle(12));

    let handles = ev
        .wakeup(vec![
            (c, String::from("gamma")),
            (a, String::from("alpha")),
            (b, String::from("beta")),
        ])
        .unwrap();
    assert_eq!(handles, vec![handle(12), handle(10), handle(11)]);
    assert_eq!(ev.take_result(a).unwrap(), "alpha");
    assert_eq!(ev.take_result(b).unwrap(), "beta");
    assert_eq!(ev.take_result(c).unwrap(), "gamma");
    assert_eq!(ev.parked_count(), 0);
}

#[test]
fn round_trip_leaves_no_trace() {
    let mut slot: Option<EventLoop<u64>> = None;
    EventLoop::init(&mut slot, &ready_env()).unwrap();
    let ev = slot.as_mut().unwrap();
    let witness = ev.suspend_on(handle(50));
    let got = ev.round_trip_immediate(handle(51), 77u64);
    assert_eq!(got, 77);
    // Only the unrelated operation is still parked; the round trip left
    // neither a table entry nor a ready result behind.
    assert_eq!(ev.parked_count(), 1);
    assert!(ev.is_parked(witness));
}

#[test]
fn unknown_id_is_rejected_and_state_kept() {
    let mut slot: Option<EventLoop<u64>> = None;
    EventLoop::init(&mut slot, &ready_env()).unwrap();
    let ev = slot.as_mut().unwrap();
    let id = ev.suspend_on(handle(20));

    let err = ev.wakeup(vec![(id, 1), (id + 1, 2)]).unwrap_err();
    assert_eq!(err, BridgeError::UnknownOperationId(id + 1));
    assert_eq!(err.message(), "operation id is not parked: never issued or already resumed");
    // The bridge is unchanged: the known id is still parked, nothing ready.
    assert!(ev.is_parked(id));
    assert_eq!(ev.parked_count(), 1);
    assert!(!ev.has_result(id));
}

#[test]
fn repeated_id_in_one_drain_is_rejected() {
    let mut slot: Option<EventLoop<u64>> = None;
    EventLoop::init(&mut slot, &ready_env()).unwrap();
    let ev = slot.as_mut().unwrap();
    let id = ev.suspend_on(handle(21));

    let err = ev.wakeup(vec![(id, 1), (id, 2)]).unwrap_err();
    assert_eq!(err, BridgeError::UnknownOperationId(id));
    assert!(ev.is_parked(id));
    assert!(!ev.has_result(id));
}

#[test]
fn double_resume_is_rejected() {
    let mut slot: Option<EventLoop<u64>> = None;
    EventLoop::init(&mut slot, &ready_env()).unwrap();
    let ev = slot.as_mut().unwrap();
    let id = ev.suspend_on(handle(22));
    ev.wakeup(vec![(id, 5)]).unwrap();

    let err = ev.wakeup(vec![(id, 5)]).unwrap_err();
    assert_eq!(err, BridgeError::UnknownOperationId(id));
    // The first delivery stays claimable.
    assert_eq!(ev.take_result(id).unwrap(), 5);
}

#[test]
fn claim_before_completion_is_rejected() {
    let mut slot: Option<EventLoop<u64>> = None;
    EventLoop::init(&mut slot, &ready_env()).unwrap();
    let ev = slot.as_mut().unwrap();
    let id = ev.suspend_on(handle(23));

    let err = ev.take_result(id).unwrap_err();
    assert_eq!(err, BridgeError::ResultNotReady(id));
    assert_eq!(err.message(), "no ready result for this operation id");
    assert!(ev.is_parked(id));
}

#[test]
fn empty_drain_resumes_nothing() {
    let mut slot: Option<EventLoop<u64>> = None;
    EventLoop::init(&mut slot, &ready_env()).unwrap();
    let ev = slot.as_mut().unwrap();
    let id = ev.suspend_on(handle(24));
    let handles = ev.wakeup(Vec::new()).unwrap();
    assert!(handles.is_empty());
    assert!(ev.is_parked(id));
}

#[test]
fn ids_are_never_reused() {
    let mut slot: Option<EventLoop<u64>> = None;
    EventLoop::init(&mut slot, &ready_env()).unwrap();
    let ev = slot.as_mut().unwrap();
    let first = ev.suspend_on(handle(30));
    ev.wakeup(vec![(first, 1)]).unwrap();
    ev.take_result(first).unwrap();
    let second = ev.suspend_on(handle(31));
    assert_ne!(first, second);
    assert_eq!(second, first + 1);
}

#[test]
fn shutdown_twice_is_safe() {
    let mut slot: Option<EventLoop<u64>> = None;
    EventLoop::init(&mut slot, &ready_env()).unwrap();
    EventLoop::shutdown(&mut slot);
    assert!(slot.is_none());
    // The second call performs no action and raises no error.
    EventLoop::shutdown(&mut slot);
    assert!(slot.is_none());
}

#[test]
fn borrow_unchecked_returns_the_value_unchanged() {
    let value: u64 = 123;
    assert_eq!(borrow_unchecked(value), 123);
    let text = String::from("parked frame");
    let widened: &String = borrow_unchecked(&text);
    assert_eq!(widened, "parked frame");
}
