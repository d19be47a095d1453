//! Operations on a VM: start, pause, resume, snapshot and restore.
//!
//! Each begins by moving the VM to a transitional state, which keeps any other
//! operation out, then talks to Firecracker, and ends by completing or by
//! rolling back.

use vstd::prelude::*;

use crate::error::Error;
use crate::json;
use crate::json::{flag_field, text_field, JsonField, ValueView};
use crate::text;
use crate::vmm::firecracker::{FcVmEntry, FirecrackerVmm};
use crate::vmm::state::VmState;
use crate::vmm::vm::{VmId, VmInstance, VmSnapshot};

verus! {

/// How long a VM may take to run after it was told to.
pub const RUNNING_WAIT_SECS: u64 = 5;

/// How long a wake waits for an operation that is in flight.
pub const WAKE_WAIT_SECS: u64 = 30;

/// How often a wake looks whether an operation in flight has settled.
pub const WAKE_POLL_MS: u64 = 200;

/// An operation on a VM.
#[derive(Debug, Clone, Copy, PartialEq, Eq, Structural)]
pub enum Operation {
    Start,
    Pause,
    Resume,
    Snapshot,
    Restore,
}

/// The state a VM is in during an operation.
pub open spec fn during(op: Operation) -> VmState {
    match op {
        Operation::Start => VmState::Starting,
        Operation::Pause => VmState::Pausing,
        Operation::Resume => VmState::Resuming,
        Operation::Snapshot => VmState::Suspending,
        Operation::Restore => VmState::Restoring,
    }
}

/// The state a VM is in when an operation has succeeded.
pub open spec fn success(op: Operation) -> VmState {
    crate::vmm::state::completion(during(op))->0
}

impl Operation {
    /// The state a VM is in during the operation.
    pub fn transitional(self) -> (s: VmState)
        ensures
            s == during(self),
    {
        match self {
            Operation::Start => VmState::Starting,
            Operation::Pause => VmState::Pausing,
            Operation::Resume => VmState::Resuming,
            Operation::Snapshot => VmState::Suspending,
            Operation::Restore => VmState::Restoring,
        }
    }

    /// The state a VM is in when the operation, begun in `from`, has ended.
    pub fn outcome(self, from: VmState, succeeded: bool) -> (s: VmState)
        ensures
            s == if succeeded {
                success(self)
            } else {
                from
            },
    {
        if !succeeded {
            return from;
        }
        match self {
            Operation::Start => VmState::Started,
            Operation::Pause => VmState::Paused,
            Operation::Resume => VmState::Started,
            Operation::Snapshot => VmState::Suspended,
            Operation::Restore => VmState::Started,
        }
    }
}

/// One step towards Firecracker.
#[derive(Debug)]
pub enum FcStep {
    /// Put an object to the API.
    Put { path: String, fields: Vec<JsonField> },
    /// Patch the API with an object.
    Patch { path: String, fields: Vec<JsonField> },
    /// Wait until the VM runs, for as many seconds.
    AwaitRunning { secs: u64 },
    /// Start a process and wait for its socket.
    Spawn,
    /// Stop the process, if there is one.
    Kill,
    /// Remove the API socket, if it is there.
    RemoveSocket { path: String },
}

/// A step towards Firecracker, by its texts.
pub enum FcStepView {
    Put { path: Seq<char>, fields: Seq<(Seq<char>, ValueView)> },
    Patch { path: Seq<char>, fields: Seq<(Seq<char>, ValueView)> },
    AwaitRunning { secs: nat },
    Spawn,
    Kill,
    RemoveSocket { path: Seq<char> },
}

impl View for FcStep {
    type V = FcStepView;

    open spec fn view(&self) -> FcStepView {
        match *self {
            FcStep::Put { path, fields } => FcStepView::Put {
                path: path@,
                fields: json::fields_view(fields@),
            },
            FcStep::Patch { path, fields } => FcStepView::Patch {
                path: path@,
                fields: json::fields_view(fields@),
            },
            FcStep::AwaitRunning { secs } => FcStepView::AwaitRunning { secs: secs as nat },
            FcStep::Spawn => FcStepView::Spawn,
            FcStep::Kill => FcStepView::Kill,
            FcStep::RemoveSocket { path } => FcStepView::RemoveSocket { path: path@ },
        }
    }
}

/// Steps towards Firecracker, by their texts.
pub open spec fn fc_views(steps: Seq<FcStep>) -> Seq<FcStepView> {
    steps.map_values(|s: FcStep| s@)
}

/// Telling a VM to pause or to go on.
pub open spec fn vm_patch(state: Seq<char>) -> FcStepView {
    FcStepView::Patch { path: "/vm"@, fields: seq![("state"@, ValueView::Text(state))] }
}

/// What an operation does. The first step that fails ends it.
pub open spec fn steps_of(op: Operation, snapshot: Option<VmSnapshot>) -> Seq<FcStepView> {
    match op {
        Operation::Start => seq![
            FcStepView::Put {
                path: "/actions"@,
                fields: seq![("action_type"@, ValueView::Text("InstanceStart"@))],
            },
            FcStepView::AwaitRunning { secs: RUNNING_WAIT_SECS as nat },
        ],
        Operation::Pause => seq![vm_patch("Paused"@)],
        Operation::Resume => seq![vm_patch("Resumed"@)],
        Operation::Snapshot => seq![
            vm_patch("Paused"@),
            FcStepView::Put {
                path: "/snapshot/create"@,
                fields: seq![
                    ("snapshot_type"@, ValueView::Text("Full"@)),
                    ("snapshot_path"@, ValueView::Text(snapshot->0.state_path@)),
                    ("mem_file_path"@, ValueView::Text(snapshot->0.mem_path@)),
                ],
            },
        ],
        Operation::Restore => seq![
            FcStepView::Spawn,
            FcStepView::Put {
                path: "/snapshot/load"@,
                fields: seq![
                    ("snapshot_path"@, ValueView::Text(snapshot->0.state_path@)),
                    ("mem_file_path"@, ValueView::Text(snapshot->0.mem_path@)),
                    ("enable_diff_snapshots"@, ValueView::Flag(false)),
                    ("resume_vm"@, ValueView::Flag(true)),
                ],
            },
            FcStepView::AwaitRunning { secs: RUNNING_WAIT_SECS as nat },
        ],
    }
}

/// What follows the steps when all have succeeded, before the operation is
/// complete: a suspended VM keeps no process.
pub open spec fn on_success_of(op: Operation, socket_path: Seq<char>) -> Seq<FcStepView> {
    match op {
        Operation::Snapshot => seq![
            FcStepView::Kill,
            FcStepView::RemoveSocket { path: socket_path },
        ],
        _ => seq![],
    }
}

/// What follows a step that has failed, before the operation is rolled back to
/// `from`: a VM that was paused for a snapshot goes on, unless it was paused
/// before, and a process started for a restore is stopped.
pub open spec fn on_failure_of(op: Operation, from: VmState) -> Seq<FcStepView> {
    match op {
        Operation::Snapshot => if from is Paused {
            seq![]
        } else {
            seq![vm_patch("Resumed"@)]
        },
        Operation::Restore => seq![FcStepView::Kill],
        _ => seq![],
    }
}

/// An operation that has begun.
#[derive(Debug)]
pub struct OpPlan {
    pub vm_id: VmId,
    pub op: Operation,
    /// The state it began in, which a failure goes back to.
    pub from: VmState,
    /// What to do; the first failure ends it.
    pub steps: Vec<FcStep>,
    /// What to do when all steps have succeeded, however it goes.
    pub on_success: Vec<FcStep>,
    /// What to do when a step has failed, however it goes.
    pub on_failure: Vec<FcStep>,
    /// The snapshot that is taken or restored.
    pub snapshot: Option<VmSnapshot>,
}

/// What came of an operation that succeeded.
#[derive(Debug)]
pub struct OpDone {
    /// The snapshot that was taken.
    pub snapshot: Option<VmSnapshot>,
    /// Whether to connect to the guest agent now, so that its idle detector
    /// gets configured: nothing else may ever connect to a VM that has no
    /// other detector.
    pub arm_detector: bool,
}

/// Why an operation cannot begin on a VM, if it cannot.
pub enum OpRefusal {
    NoSnapshot,
    State { from: VmState, to: VmState },
}

/// Why an operation cannot begin on a VM, if it cannot.
pub open spec fn op_refusal(e: FcVmEntry, op: Operation) -> Option<OpRefusal> {
    if op is Restore && e.instance.snapshot is None {
        Some(OpRefusal::NoSnapshot)
    } else if !crate::vmm::state::legal(e.instance.state, during(op)) {
        Some(OpRefusal::State { from: e.instance.state, to: during(op) })
    } else {
        None
    }
}

/// An entry in another state.
pub open spec fn in_state(e: FcVmEntry, state: VmState) -> FcVmEntry {
    FcVmEntry { instance: VmInstance { state, ..e.instance }, ..e }
}

/// The files that a snapshot of a VM goes to.
pub open spec fn snapshot_for(s: VmSnapshot, i: VmInstance, now: u64) -> bool {
    &&& s.state_path@ == text::path_joined(i.work_dir@, i.vm_id.0@ + "_snapshot.state"@)
    &&& s.mem_path@ == text::path_joined(i.work_dir@, i.vm_id.0@ + "_snapshot.mem"@)
    &&& s.created_at == now
}

/// Whether a plan is the one for an operation on a VM.
pub open spec fn plan_for(plan: OpPlan, e: FcVmEntry, op: Operation, wall_now: u64) -> bool {
    &&& plan.vm_id == e.instance.vm_id
    &&& plan.op == op
    &&& plan.from == e.instance.state
    &&& match op {
        Operation::Snapshot => plan.snapshot is Some && snapshot_for(
            plan.snapshot->0,
            e.instance,
            wall_now,
        ),
        Operation::Restore => plan.snapshot == e.instance.snapshot,
        _ => plan.snapshot is None,
    }
    &&& fc_views(plan.steps@) == steps_of(op, plan.snapshot)
    &&& fc_views(plan.on_success@) == on_success_of(op, e.instance.socket_path@)
    &&& fc_views(plan.on_failure@) == on_failure_of(op, plan.from)
}

/// An entry when an operation on it has succeeded.
pub open spec fn completed(
    e: FcVmEntry,
    op: Operation,
    snapshot: Option<VmSnapshot>,
    now: u64,
) -> FcVmEntry {
    let done = in_state(e, success(op));
    match op {
        Operation::Start => FcVmEntry { woken_at: Some(now), ..done },
        Operation::Pause => done,
        Operation::Resume => done,
        Operation::Snapshot => FcVmEntry {
            instance: VmInstance { snapshot, ..done.instance },
            has_process: false,
            ..done
        },
        Operation::Restore => FcVmEntry { woken_at: Some(now), has_process: true, ..done },
    }
}

/// Whether a VM's guest agent is to be connected to for its idle detector.
pub open spec fn wants_detector(e: FcVmEntry) -> bool {
    e.instance.vm_config.auto_suspend is Some
        && e.instance.vm_config.auto_suspend->0.idle_check_cmd@.len() > 0
}

/// Whether to connect to a VM's guest agent once it is up.
fn detector_wanted(e: &FcVmEntry) -> (b: bool)
    ensures
        b == wants_detector(*e),
{
    match &e.instance.vm_config.auto_suspend {
        Some(c) => c.idle_check_cmd.len() > 0,
        None => false,
    }
}

/// Telling a VM to pause or to go on.
fn patch_vm(state: &str) -> (step: FcStep)
    ensures
        step@ == vm_patch(state@),
{
    let fields = vec![text_field("state", state)];
    proof {
        assert(json::fields_view(fields@) =~= seq![("state"@, ValueView::Text(state@))]);
    }
    FcStep::Patch { path: "/vm".to_owned(), fields }
}

/// Taking a snapshot.
fn create_snapshot(s: &VmSnapshot) -> (step: FcStep)
    ensures
        step@ == steps_of(Operation::Snapshot, Some(*s))[1],
{
    let fields = vec![
        text_field("snapshot_type", "Full"),
        text_field("snapshot_path", &s.state_path),
        text_field("mem_file_path", &s.mem_path),
    ];
    proof {
        assert(json::fields_view(fields@) =~= seq![
            ("snapshot_type"@, ValueView::Text("Full"@)),
            ("snapshot_path"@, ValueView::Text(s.state_path@)),
            ("mem_file_path"@, ValueView::Text(s.mem_path@)),
        ]);
    }
    FcStep::Put { path: "/snapshot/create".to_owned(), fields }
}

/// Loading a snapshot and resuming in one go.
fn load_snapshot(s: &VmSnapshot) -> (step: FcStep)
    ensures
        step@ == steps_of(Operation::Restore, Some(*s))[1],
{
    let fields = vec![
        text_field("snapshot_path", &s.state_path),
        text_field("mem_file_path", &s.mem_path),
        flag_field("enable_diff_snapshots", false),
        flag_field("resume_vm", true),
    ];
    proof {
        assert(json::fields_view(fields@) =~= seq![
            ("snapshot_path"@, ValueView::Text(s.state_path@)),
            ("mem_file_path"@, ValueView::Text(s.mem_path@)),
            ("enable_diff_snapshots"@, ValueView::Flag(false)),
            ("resume_vm"@, ValueView::Flag(true)),
        ]);
    }
    FcStep::Put { path: "/snapshot/load".to_owned(), fields }
}

/// What an operation does.
fn op_steps(op: Operation, snapshot: &Option<VmSnapshot>) -> (steps: Vec<FcStep>)
    requires
        op is Snapshot || op is Restore ==> snapshot is Some,
    ensures
        fc_views(steps@) == steps_of(op, *snapshot),
{
    let steps: Vec<FcStep> = match (op, snapshot) {
        (Operation::Start, _) => {
            let fields = vec![text_field("action_type", "InstanceStart")];
            proof {
                assert(json::fields_view(fields@) =~= seq![
                    ("action_type"@, ValueView::Text("InstanceStart"@)),
                ]);
            }
            vec![
                FcStep::Put { path: "/actions".to_owned(), fields },
                FcStep::AwaitRunning { secs: RUNNING_WAIT_SECS },
            ]
        },
        (Operation::Pause, _) => vec![patch_vm("Paused")],
        (Operation::Resume, _) => vec![patch_vm("Resumed")],
        (Operation::Snapshot, Some(s)) => vec![patch_vm("Paused"), create_snapshot(s)],
        (Operation::Restore, Some(s)) => vec![
            FcStep::Spawn,
            load_snapshot(s),
            FcStep::AwaitRunning { secs: RUNNING_WAIT_SECS },
        ],
        _ => Vec::new(),
    };
    proof {
        assert(fc_views(steps@) =~= steps_of(op, *snapshot));
    }
    steps
}

/// What follows when all steps have succeeded.
fn op_on_success(op: Operation, socket_path: &str) -> (steps: Vec<FcStep>)
    ensures
        fc_views(steps@) == on_success_of(op, socket_path@),
{
    let steps: Vec<FcStep> = match op {
        Operation::Snapshot => vec![
            FcStep::Kill,
            FcStep::RemoveSocket { path: socket_path.to_owned() },
        ],
        _ => Vec::new(),
    };
    proof {
        assert(fc_views(steps@) =~= on_success_of(op, socket_path@));
    }
    steps
}

/// What follows when a step has failed.
fn op_on_failure(op: Operation, from: VmState) -> (steps: Vec<FcStep>)
    ensures
        fc_views(steps@) == on_failure_of(op, from),
{
    let steps: Vec<FcStep> = match op {
        Operation::Snapshot => if from == VmState::Paused {
            Vec::new()
        } else {
            vec![patch_vm("Resumed")]
        },
        Operation::Restore => vec![FcStep::Kill],
        _ => Vec::new(),
    };
    proof {
        assert(fc_views(steps@) =~= on_failure_of(op, from));
    }
    steps
}

impl FirecrackerVmm {
    /// Begins an operation on a VM. `wall_now` is the time a snapshot gets, in
    /// milliseconds since the Unix epoch.
    pub fn begin(&mut self, vm_id: &VmId, op: Operation, wall_now: u64) -> (r: Result<
        OpPlan,
        Error,
    >)
        requires
            old(self).wf(),
        ensures
            final(self).wf(),
            crate::vmm::firecracker::only_vms(*old(self), *final(self)),
            begun(*old(self), *final(self), vm_id.0@, op, wall_now, r),
    {
        let i = match self.find(&vm_id.0) {
            None => {
                return Err(Error::VmNotFound(vm_id.0.clone()));
            },
            Some(i) => i,
        };
        let ghost before = self.vms@;
        let snapshot: Option<VmSnapshot> = match op {
            Operation::Restore => match &self.vms[i].instance.snapshot {
                Some(s) => Some(s.clone()),
                None => {
                    return Err(Error::Vmm(text::cat3("vm ", &vm_id.0, " has no snapshot")));
                },
            },
            Operation::Snapshot => Some(self.vms[i].instance.new_snapshot(wall_now)),
            _ => None,
        };
        let to = op.transitional();
        let from = self.vms[i].instance.state;
        if !from.can_transition_to(to) {
            return Err(Error::InvalidStateTransition { from, to });
        }
        proof {
            crate::vmm::firecracker::lemma_entry_updated(
                before,
                i as int,
                in_state(before[i as int], to),
            );
        }
        self.vms[i].instance.state = to;
        proof {
            assert(self.vms@ =~= before.update(i as int, in_state(before[i as int], to)));
        }
        Ok(
            OpPlan {
                vm_id: self.vms[i].instance.vm_id.clone(),
                op,
                from,
                steps: op_steps(op, &snapshot),
                on_success: op_on_success(op, &self.vms[i].instance.socket_path),
                on_failure: op_on_failure(op, from),
                snapshot,
            },
        )
    }
}

/// What beginning an operation comes to.
pub open spec fn begun(
    before: FirecrackerVmm,
    after: FirecrackerVmm,
    vm_id: Seq<char>,
    op: Operation,
    wall_now: u64,
    r: Result<OpPlan, Error>,
) -> bool {
    let vms = before.vms@;
    let i = crate::vmm::firecracker::vm_index(vms, vm_id) as int;
    if i == vms.len() {
        after.vms@ == vms && (r matches Err(Error::VmNotFound(id)) && id@ == vm_id)
    } else {
        match (op_refusal(vms[i], op), r) {
            (None, Ok(plan)) => plan_for(plan, vms[i], op, wall_now) && after.vms@ == vms.update(
                i,
                in_state(vms[i], during(op)),
            ),
            (Some(OpRefusal::NoSnapshot), Err(Error::Vmm(m))) => after.vms@ == vms && m@ == "vm "@
                + vm_id + " has no snapshot"@,
            (
                Some(OpRefusal::State { from, to }),
                Err(Error::InvalidStateTransition { from: f, to: t }),
            ) => after.vms@ == vms && f == from && t == to,
            _ => false,
        }
    }
}

impl FirecrackerVmm {
    /// Begins to start a created VM.
    pub fn start_vm(&mut self, vm_id: &VmId) -> (r: Result<OpPlan, Error>)
        requires
            old(self).wf(),
        ensures
            final(self).wf(),
            crate::vmm::firecracker::only_vms(*old(self), *final(self)),
            begun(*old(self), *final(self), vm_id.0@, Operation::Start, 0, r),
    {
        self.begin(vm_id, Operation::Start, 0)
    }

    /// Begins to pause a started VM.
    pub fn pause_vm(&mut self, vm_id: &VmId) -> (r: Result<OpPlan, Error>)
        requires
            old(self).wf(),
        ensures
            final(self).wf(),
            crate::vmm::firecracker::only_vms(*old(self), *final(self)),
            begun(*old(self), *final(self), vm_id.0@, Operation::Pause, 0, r),
    {
        self.begin(vm_id, Operation::Pause, 0)
    }

    /// Begins to resume a paused VM.
    pub fn resume_vm(&mut self, vm_id: &VmId) -> (r: Result<OpPlan, Error>)
        requires
            old(self).wf(),
        ensures
            final(self).wf(),
            crate::vmm::firecracker::only_vms(*old(self), *final(self)),
            begun(*old(self), *final(self), vm_id.0@, Operation::Resume, 0, r),
    {
        self.begin(vm_id, Operation::Resume, 0)
    }

    /// Begins to suspend a VM to a snapshot.
    pub fn snapshot_vm(&mut self, vm_id: &VmId, wall_now: u64) -> (r: Result<OpPlan, Error>)
        requires
            old(self).wf(),
        ensures
            final(self).wf(),
            crate::vmm::firecracker::only_vms(*old(self), *final(self)),
            begun(*old(self), *final(self), vm_id.0@, Operation::Snapshot, wall_now, r),
    {
        self.begin(vm_id, Operation::Snapshot, wall_now)
    }

    /// Begins to restore a suspended VM from its snapshot.
    pub fn restore_vm(&mut self, vm_id: &VmId) -> (r: Result<OpPlan, Error>)
        requires
            old(self).wf(),
        ensures
            final(self).wf(),
            crate::vmm::firecracker::only_vms(*old(self), *final(self)),
            begun(*old(self), *final(self), vm_id.0@, Operation::Restore, 0, r),
    {
        self.begin(vm_id, Operation::Restore, 0)
    }

    /// Completes an operation or rolls it back, by how its steps went. `now`
    /// is on the clock of auto-suspend. If the VM was destroyed meanwhile
    /// there is nothing left to do, except that a restored process has nobody
    /// to belong to.
    pub fn finish(&mut self, plan: OpPlan, outcome: Result<(), Error>, now: u64) -> (r: Result<
        OpDone,
        Error,
    >)
        requires
            old(self).wf(),
        ensures
            final(self).wf(),
            crate::vmm::firecracker::only_vms(*old(self), *final(self)),
            finished(*old(self), *final(self), plan, outcome, now, r),
    {
        let i = match self.find(&plan.vm_id.0) {
            None => {
                return match outcome {
                    Err(e) => Err(e),
                    Ok(()) => if plan.op == Operation::Restore {
                        Err(Error::VmNotFound(plan.vm_id.0.clone()))
                    } else {
                        Ok(OpDone { snapshot: plan.snapshot, arm_detector: false })
                    },
                };
            },
            Some(i) => i,
        };
        let ghost before = self.vms@;
        let ghost e = before[i as int];
        let to = plan.op.outcome(plan.from, outcome.is_ok());
        let from = self.vms[i].instance.state;
        if !from.can_transition_to(to) {
            return Err(Error::InvalidStateTransition { from, to });
        }
        self.vms[i].instance.state = to;
        match outcome {
            Err(why) => {
                proof {
                    crate::vmm::firecracker::lemma_entry_updated(
                        before,
                        i as int,
                        in_state(e, to),
                    );
                    assert(self.vms@ =~= before.update(i as int, in_state(e, to)));
                }
                Err(why)
            },
            Ok(()) => {
                let mut taken: Option<VmSnapshot> = None;
                match plan.op {
                    Operation::Start => {
                        self.vms[i].woken_at = Some(now);
                    },
                    Operation::Pause | Operation::Resume => {},
                    Operation::Snapshot => {
                        match &plan.snapshot {
                            Some(s) => {
                                taken = Some(s.clone());
                            },
                            None => {},
                        }
                        self.vms[i].instance.snapshot = plan.snapshot;
                        self.vms[i].has_process = false;
                    },
                    Operation::Restore => {
                        self.vms[i].woken_at = Some(now);
                        self.vms[i].has_process = true;
                    },
                }
                let arm_detector = matches!(plan.op, Operation::Start | Operation::Restore)
                    && detector_wanted(&self.vms[i]);
                proof {
                    let done = completed(e, plan.op, plan.snapshot, now);
                    crate::vmm::firecracker::lemma_entry_updated(before, i as int, done);
                    assert(self.vms@ =~= before.update(i as int, done));
                }
                Ok(OpDone { snapshot: taken, arm_detector })
            },
        }
    }
}

/// What ending an operation comes to.
pub open spec fn finished(
    before: FirecrackerVmm,
    after: FirecrackerVmm,
    plan: OpPlan,
    outcome: Result<(), Error>,
    now: u64,
    r: Result<OpDone, Error>,
) -> bool {
    let vms = before.vms@;
    let i = crate::vmm::firecracker::vm_index(vms, plan.vm_id.0@) as int;
    let op = plan.op;
    if i == vms.len() {
        &&& after.vms@ == vms
        &&& match outcome {
            Err(e) => r == Err::<OpDone, Error>(e),
            Ok(()) => if op is Restore {
                r matches Err(Error::VmNotFound(id)) && id@ == plan.vm_id.0@
            } else {
                r matches Ok(done) && done.snapshot == plan.snapshot && !done.arm_detector
            },
        }
    } else {
        let to = if outcome is Ok {
            success(op)
        } else {
            plan.from
        };
        if !crate::vmm::state::legal(vms[i].instance.state, to) {
            &&& after.vms@ == vms
            &&& r matches Err(Error::InvalidStateTransition { from, to: t })
            &&& from == vms[i].instance.state
            &&& t == to
        } else {
            match outcome {
                Err(e) => r == Err::<OpDone, Error>(e) && after.vms@ == vms.update(
                    i,
                    in_state(vms[i], plan.from),
                ),
                Ok(()) => r is Ok && after.vms@ == vms.update(
                    i,
                    completed(vms[i], op, plan.snapshot, now),
                ) && r->Ok_0.arm_detector == ((op is Start || op is Restore) && wants_detector(
                    vms[i],
                )) && r->Ok_0.snapshot == if op is Snapshot {
                    plan.snapshot
                } else {
                    None
                },
            }
        }
    }
}

// ---------------------------------------------------------------------------
// Waking
// ---------------------------------------------------------------------------

/// What to do to get a VM started.
#[derive(Debug)]
pub enum WakeStep {
    /// It is.
    Ready,
    /// Restore it from its snapshot.
    Restore,
    /// A snapshot or a restore is in flight; look again after
    /// [`WAKE_POLL_MS`].
    Wait,
    /// Give up.
    Failed(Error),
}

impl FirecrackerVmm {
    /// What to do to get a VM started that may be suspended. `past_deadline`
    /// says whether [`WAKE_WAIT_SECS`] have passed since the wake began.
    pub fn ensure_started(&self, vm_id: &VmId, past_deadline: bool) -> (step: WakeStep)
        ensures
            ({
                let i = crate::vmm::firecracker::vm_index(self.vms@, vm_id.0@) as int;
                if i == self.vms@.len() {
                    step matches WakeStep::Failed(Error::VmNotFound(id)) && id@ == vm_id.0@
                } else {
                    let state = self.vms@[i].instance.state;
                    match state {
                        VmState::Started => step is Ready,
                        VmState::Suspended => step is Restore,
                        VmState::Suspending | VmState::Restoring => if past_deadline {
                            step matches WakeStep::Failed(Error::Vmm(m)) && m@ == "vm "@
                                + vm_id.0@ + " is still "@ + crate::vmm::state::state_name(state)
                                + " after 30s"@
                        } else {
                            step is Wait
                        },
                        _ => step matches WakeStep::Failed(Error::Vmm(m)) && m@ == "vm "@
                            + vm_id.0@ + " is "@ + crate::vmm::state::state_name(state)
                            + "; only a suspended vm can be woken"@,
                    }
                }
            }),
    {
        let state = match self.find(&vm_id.0) {
            None => {
                return WakeStep::Failed(Error::VmNotFound(vm_id.0.clone()));
            },
            Some(i) => self.vms[i].instance.state,
        };
        match state {
            VmState::Started => WakeStep::Ready,
            VmState::Suspended => WakeStep::Restore,
            VmState::Suspending | VmState::Restoring => if past_deadline {
                WakeStep::Failed(
                    Error::Vmm(
                        text::cat5("vm ", &vm_id.0, " is still ", state.name(), " after 30s"),
                    ),
                )
            } else {
                WakeStep::Wait
            },
            _ => WakeStep::Failed(
                Error::Vmm(
                    text::cat5(
                        "vm ",
                        &vm_id.0,
                        " is ",
                        state.name(),
                        "; only a suspended vm can be woken",
                    ),
                ),
            ),
        }
    }
}

// ---------------------------------------------------------------------------
// Laws
// ---------------------------------------------------------------------------

/// What holds of every registered VM: a suspended VM has a snapshot to come
/// back from and holds no process, any other that is at rest holds one.
pub open spec fn sound(e: FcVmEntry) -> bool {
    let s = e.instance.state;
    &&& s is Suspended || s is Restoring ==> e.instance.snapshot is Some && !e.has_process
    &&& s is Created || s is Starting || s is Started || s is Pausing || s is Paused
        || s is Resuming || s is Suspending ==> e.has_process
    &&& !(s is Creating) && !(s is Destroying) && !(s is Destroyed)
}

/// Every operation keeps a VM sound: one that fails leaves the VM as it was
/// before, whichever state it began in.
pub proof fn law_operations_keep_sound(e: FcVmEntry, op: Operation, s: VmSnapshot, now: u64)
    requires
        sound(e),
        op_refusal(e, op) is None,
    ensures
        sound(in_state(e, during(op))),
        in_state(in_state(e, during(op)), e.instance.state) == e,
        sound(
            completed(
                in_state(e, during(op)),
                op,
                if op is Restore {
                    e.instance.snapshot
                } else {
                    Some(s)
                },
                now,
            ),
        ),
{
}

/// An operation that fails changes nothing: once it is rolled back, every VM
/// is as it was before the operation began.
pub proof fn law_failed_operation_changes_nothing(
    before: FirecrackerVmm,
    meanwhile: FirecrackerVmm,
    after: FirecrackerVmm,
    vm_id: Seq<char>,
    op: Operation,
    wall_now: u64,
    plan: OpPlan,
    why: Error,
    now: u64,
    r: Result<OpDone, Error>,
)
    requires
        begun(before, meanwhile, vm_id, op, wall_now, Ok(plan)),
        finished(meanwhile, after, plan, Err(why), now, r),
    ensures
        after.vms@ == before.vms@,
        r == Err::<OpDone, Error>(why),
{
    let vms = before.vms@;
    let i = crate::vmm::firecracker::vm_index(vms, vm_id) as int;
    crate::vmm::firecracker::lemma_vm_index(vms, vm_id);
    crate::vmm::firecracker::lemma_entry_updated(vms, i, in_state(vms[i], during(op)));
    assert(crate::vmm::firecracker::vm_index(meanwhile.vms@, vm_id) == i);
    assert(after.vms@ =~= vms);
}

/// A new VM is sound.
pub proof fn law_new_vm_is_sound(e: FcVmEntry, i: VmInstance)
    requires
        crate::vmm::firecracker::fresh_entry(e, i),
        i.state is Created,
    ensures
        sound(e),
{
}

/// While an operation is in flight no other can begin, and it can always end
/// either way: complete, or go back to the state it began in.
pub proof fn law_operations_exclude_each_other(e: FcVmEntry, op: Operation, other: Operation)
    requires
        op_refusal(e, op) is None,
    ensures
        op_refusal(in_state(e, during(op)), other) is Some,
        crate::vmm::state::legal(during(op), success(op)),
        crate::vmm::state::legal(during(op), e.instance.state),
{
}

/// A suspended VM can be restored, and again after a restore that failed: by
/// then it is as it was.
pub proof fn law_suspended_vm_can_be_restored(e: FcVmEntry)
    requires
        sound(e),
        e.instance.state is Suspended,
    ensures
        op_refusal(e, Operation::Restore) is None,
        in_state(in_state(e, VmState::Restoring), VmState::Suspended) == e,
{
}

/// Restoring undoes a snapshot: the VM is started again, and all else about it
/// is as it was, but for the snapshot it keeps and the time it came up.
pub proof fn law_restore_undoes_snapshot(e: FcVmEntry, s: VmSnapshot, now: u64)
    requires
        sound(e),
        e.instance.state is Started,
    ensures
        ({
            let asleep = completed(
                in_state(e, VmState::Suspending),
                Operation::Snapshot,
                Some(s),
                now,
            );
            let awake = completed(
                in_state(asleep, VmState::Restoring),
                Operation::Restore,
                Some(s),
                now,
            );
            &&& op_refusal(e, Operation::Snapshot) is None
            &&& op_refusal(asleep, Operation::Restore) is None
            &&& awake == (FcVmEntry {
                instance: VmInstance { snapshot: Some(s), ..e.instance },
                woken_at: Some(now),
                ..e
            })
        }),
{
}

/// Resuming undoes a pause entirely.
pub proof fn law_resume_undoes_pause(e: FcVmEntry, now: u64)
    requires
        e.instance.state is Started,
    ensures
        ({
            let paused = completed(in_state(e, VmState::Pausing), Operation::Pause, None, now);
            &&& op_refusal(e, Operation::Pause) is None
            &&& op_refusal(paused, Operation::Resume) is None
            &&& completed(in_state(paused, VmState::Resuming), Operation::Resume, None, now) == e
        }),
{
}

} // verus!
