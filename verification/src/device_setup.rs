use vstd::prelude::*;

verus! {

/// The kind of local device that is set up over a static library loader.
#[derive(PartialEq, Eq, Structural, Clone, Copy)]
pub enum DeviceKind {
    /// Runs dispatches synchronously on the calling thread.
    LocalSync,
    /// Runs dispatches on task executors.
    LocalTask,
}

/// A call of the runtime, made while setting up a device, that reports
/// success or failure.
#[derive(PartialEq, Eq, Structural, Clone, Copy)]
pub enum SetupCall {
    /// Create the static library loader over the given libraries.
    CreateStaticLoader,
    /// Create the heap allocator of the device.
    CreateHeapAllocator,
    /// Create the task executors (task devices only).
    CreateTaskExecutors,
    /// Create the device itself.
    CreateDevice,
}

/// What the setup does after a call has reported its outcome.
pub enum SetupAction {
    /// Make this call next.
    Run(SetupCall),
    /// The call just made failed: return its error at once, releasing nothing.
    Fail,
    /// Every call succeeded: release the allocator and the loader, which the
    /// device keeps alive, and return the device.
    ReleaseAndFinish,
}

/// Room for task executors that a task device asks the runtime to fill.
pub const TASK_EXECUTOR_CAPACITY: usize = 8;

/// The calls that setting up a device of `kind` makes, in order.
pub open spec fn setup_calls(kind: DeviceKind) -> Seq<SetupCall> {
    match kind {
        DeviceKind::LocalSync => seq![
            SetupCall::CreateStaticLoader,
            SetupCall::CreateHeapAllocator,
            SetupCall::CreateDevice,
        ],
        DeviceKind::LocalTask => seq![
            SetupCall::CreateStaticLoader,
            SetupCall::CreateHeapAllocator,
            SetupCall::CreateTaskExecutors,
            SetupCall::CreateDevice,
        ],
    }
}

/// The next step and action after the call at `step` reported `succeeded`.
pub open spec fn advance_spec(kind: DeviceKind, step: nat, succeeded: bool) -> (nat, SetupAction) {
    if !succeeded {
        (step, SetupAction::Fail)
    } else if step + 1 < setup_calls(kind).len() {
        ((step + 1) as nat, SetupAction::Run(setup_calls(kind)[step + 1int]))
    } else {
        (step, SetupAction::ReleaseAndFinish)
    }
}

/// Drives the setup from the call at `step` with the outcomes of the calls
/// made from there on. Gives how many calls were made and the last action:
/// `Fail` or `ReleaseAndFinish` where the setup ended, or the call it waits
/// for where the outcomes ran out first.
pub open spec fn drive(kind: DeviceKind, step: nat, outcomes: Seq<bool>) -> (nat, SetupAction)
    decreases outcomes.len(),
{
    if outcomes.len() == 0 {
        (0, SetupAction::Run(setup_calls(kind)[step as int]))
    } else {
        let (next, action) = advance_spec(kind, step, outcomes[0]);
        match action {
            SetupAction::Run(_) => {
                let (made, last) = drive(kind, next, outcomes.drop_first());
                (made + 1, last)
            },
            _ => (1, action),
        }
    }
}

/// The name under which a device of `kind` is created.
pub fn device_identifier(kind: DeviceKind) -> (id: &'static str)
    ensures
        kind == DeviceKind::LocalSync ==> id@ == "local-sync"@,
        kind == DeviceKind::LocalTask ==> id@ == "local-task"@,
{
    match kind {
        DeviceKind::LocalSync => "local-sync",
        DeviceKind::LocalTask => "local-task",
    }
}

/// Where the setup of a device stands: which call it makes next.
pub struct DeviceSetup {
    kind: DeviceKind,
    step: usize,
}

impl DeviceSetup {
    /// The kind of device being set up.
    pub closed spec fn kind_spec(self) -> DeviceKind {
        self.kind
    }

    /// The position, in `setup_calls`, of the call made next.
    pub closed spec fn step_spec(self) -> nat {
        self.step as nat
    }

    /// The setup's invariant: the next call is one of the setup's calls.
    pub closed spec fn wf(self) -> bool {
        self.step < setup_calls(self.kind).len()
    }

    /// The setup of a device of `kind`, before its first call.
    pub fn new(kind: DeviceKind) -> (s: Self)
        ensures
            s.wf(),
            s.kind_spec() == kind,
            s.step_spec() == 0,
    {
        DeviceSetup { kind, step: 0 }
    }

    /// The kind of device being set up.
    pub fn kind(&self) -> (k: DeviceKind)
        ensures
            k == self.kind_spec(),
    {
        self.kind
    }

    /// The call that the setup makes next.
    pub fn current_call(&self) -> (c: SetupCall)
        requires
            self.wf(),
        ensures
            c == setup_calls(self.kind_spec())[self.step_spec() as int],
    {
        match self.kind {
            DeviceKind::LocalSync => {
                if self.step == 0 {
                    SetupCall::CreateStaticLoader
                } else if self.step == 1 {
                    SetupCall::CreateHeapAllocator
                } else {
                    SetupCall::CreateDevice
                }
            },
            DeviceKind::LocalTask => {
                if self.step == 0 {
                    SetupCall::CreateStaticLoader
                } else if self.step == 1 {
                    SetupCall::CreateHeapAllocator
                } else if self.step == 2 {
                    SetupCall::CreateTaskExecutors
                } else {
                    SetupCall::CreateDevice
                }
            },
        }
    }

    /// Takes the outcome of the current call and decides what comes next:
    /// a failure ends the setup with that error, a success moves on to the
    /// next call, and the success of the last call finishes it.
    pub fn advance(&mut self, succeeded: bool) -> (action: SetupAction)
        requires
            old(self).wf(),
        ensures
            final(self).wf(),
            final(self).kind_spec() == old(self).kind_spec(),
            (final(self).step_spec(), action) == advance_spec(
                old(self).kind_spec(),
                old(self).step_spec(),
                succeeded,
            ),
    {
        if !succeeded {
            return SetupAction::Fail;
        }
        let last: usize = match self.kind {
            DeviceKind::LocalSync => 2,
            DeviceKind::LocalTask => 3,
        };
        if self.step < last {
            self.step = self.step + 1;
            SetupAction::Run(self.current_call())
        } else {
            SetupAction::ReleaseAndFinish
        }
    }
}

/// Driving the setup from the call at `step`, with one outcome for each call
/// left: where all succeed, every call is made and the setup finishes; where
/// one fails, the calls stop at the first failure and the setup fails.
proof fn lemma_drive_from(kind: DeviceKind, step: nat, outcomes: Seq<bool>)
    requires
        outcomes.len() > 0,
        step + outcomes.len() == setup_calls(kind).len(),
    ensures
        (forall|i: int| 0 <= i < outcomes.len() ==> outcomes[i]) ==> drive(kind, step, outcomes)
            == (outcomes.len(), SetupAction::ReleaseAndFinish),
        forall|f: int|
            0 <= f < outcomes.len() && !outcomes[f] && (forall|i: int|
                0 <= i < f ==> outcomes[i]) ==> drive(kind, step, outcomes) == (
                (f + 1) as nat,
                SetupAction::Fail,
            ),
    decreases outcomes.len(),
{
    if !outcomes[0] {
        assert forall|f: int|
            0 <= f < outcomes.len() && !outcomes[f] && (forall|i: int|
                0 <= i < f ==> outcomes[i]) implies drive(kind, step, outcomes) == (
            (f + 1) as nat,
            SetupAction::Fail,
        ) by {
            if f > 0 {
                assert(outcomes[0]);
            }
        }
    } else if outcomes.len() == 1 {
    } else {
        let rest = outcomes.drop_first();
        lemma_drive_from(kind, step + 1, rest);
        if forall|i: int| 0 <= i < outcomes.len() ==> outcomes[i] {
            assert forall|i: int| 0 <= i < rest.len() implies rest[i] by {
                assert(rest[i] == outcomes[i + 1]);
            }
        }
        assert forall|f: int|
            0 <= f < outcomes.len() && !outcomes[f] && (forall|i: int|
                0 <= i < f ==> outcomes[i]) implies drive(kind, step, outcomes) == (
            (f + 1) as nat,
            SetupAction::Fail,
        ) by {
            assert(f > 0);
            assert(!rest[f - 1]);
            assert forall|i: int| 0 <= i < f - 1 implies rest[i] by {
                assert(rest[i] == outcomes[i + 1]);
            }
        }
    }
}

/// A setup, fed the outcome of each call it makes, finishes with the device
/// exactly when every call succeeds, after making every call; otherwise it
/// fails right after the first call that fails, making no call after it.
pub proof fn lemma_setup_stops_at_first_failure(kind: DeviceKind, outcomes: Seq<bool>)
    requires
        outcomes.len() == setup_calls(kind).len(),
    ensures
        (forall|i: int| 0 <= i < outcomes.len() ==> outcomes[i]) ==> drive(kind, 0, outcomes) == (
            setup_calls(kind).len(),
            SetupAction::ReleaseAndFinish,
        ),
        forall|f: int|
            0 <= f < outcomes.len() && !outcomes[f] && (forall|i: int|
                0 <= i < f ==> outcomes[i]) ==> drive(kind, 0, outcomes) == (
                (f + 1) as nat,
                SetupAction::Fail,
            ),
{
    lemma_drive_from(kind, 0, outcomes);
}

} // verus!
