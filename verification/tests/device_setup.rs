use ariel_ml::device_setup::{device_identifier, DeviceKind, DeviceSetup, SetupAction, SetupCall, TASK_EXECUTOR_CAPACITY};

fn run(kind: DeviceKind, outcomes: &[bool]) -> (Vec<SetupCall>, &'static str) {
    let mut setup = DeviceSetup::new(kind);
    let mut calls = Vec::new();
    for &ok in outcomes {
        calls.push(setup.current_call());
        match setup.advance(ok) {
            SetupAction::Run(next) => assert!(next == setup.current_call()),
            SetupAction::Fail => return (calls, "fail"),
            SetupAction::ReleaseAndFinish => return (calls, "finish"),
        }
    }
    (calls, "waiting")
}

#[test]
fn identifiers_name_the_device_kind() {
    assert_eq!(device_identifier(DeviceKind::LocalSync), "local-sync");
    assert_eq!(device_identifier(DeviceKind::LocalTask), "local-task");
    assert_eq!(TASK_EXECUTOR_CAPACITY, 8);
}

#[test]
fn sync_setup_makes_three_calls() {
    let (calls, end) = run(DeviceKind::LocalSync, &[true, true, true]);
    assert!(calls == vec![SetupCall::CreateStaticLoader, SetupCall::CreateHeapAllocator, SetupCall::CreateDevice]);
    assert_eq!(end, "finish");
}

#[test]
fn task_setup_creates_executors_before_device() {
    let (calls, end) = run(DeviceKind::LocalTask, &[true, true, true, true]);
    assert!(
        calls
            == vec![
                SetupCall::CreateStaticLoader,
                SetupCall::CreateHeapAllocator,
                SetupCall::CreateTaskExecutors,
                SetupCall::CreateDevice
            ]
    );
    assert_eq!(end, "finish");
}

#[test]
fn failed_loader_stops_setup() {
    let (calls, end) = run(DeviceKind::LocalSync, &[false, true, true]);
    assert!(calls == vec![SetupCall::CreateStaticLoader]);
    assert_eq!(end, "fail");
}

#[test]
fn failed_executors_stop_task_setup() {
    let (calls, end) = run(DeviceKind::LocalTask, &[true, true, false, true]);
    assert_eq!(calls.len(), 3);
    assert!(calls[2] == SetupCall::CreateTaskExecutors);
    assert_eq!(end, "fail");
}

#[test]
fn failed_device_creation_fails_setup() {
    let (calls, end) = run(DeviceKind::LocalSync, &[true, true, false]);
    assert_eq!(calls.len(), 3);
    assert_eq!(end, "fail");
}

#[test]
fn setup_keeps_its_kind() {
    let mut setup = DeviceSetup::new(DeviceKind::LocalTask);
    assert!(setup.kind() == DeviceKind::LocalTask);
    setup.advance(true);
    assert!(setup.kind() == DeviceKind::LocalTask);
}
