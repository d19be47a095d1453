//! Scheduled VMs: which cron fires are due, and what a run goes through.
//!
//! A schedule VM spends its life suspended. On each fire it is woken, its
//! command runs as a workload, and it is suspended again. Expressions are in
//! UTC. Fires missed while the host daemon was down are not caught up, and
//! runs of one VM never overlap.

use vstd::prelude::*;

use crate::error::Error;
use crate::text;
use crate::vmm::auto_suspend::has_passed;
use crate::vmm::firecracker::{FcVmEntry, FirecrackerVmm};
use crate::vmm::state::VmState;
use crate::vmm::vm::{EnvVar, VmId, VmMode};
use crate::vmm::workload::WorkloadSpec;

verus! {

/// Why the `cron` crate does not take an expression.
pub uninterp spec fn cron_refusal(expr: Seq<char>) -> Option<Seq<char>>;

/// The first time after `after_ms` that an expression fires according to the
/// `cron` crate, both in milliseconds since the Unix epoch; the reason if it
/// does not take the expression.
pub uninterp spec fn cron_first_fire(expr: Seq<char>, after_ms: int) -> Result<
    Option<i64>,
    Seq<char>,
>;

/// The latest time that fires can be asked for: the calendar of `chrono` ends
/// not far behind it.
pub const LATEST_MS: i64 = 8_000_000_000_000_000;

/// Calls `cron::Schedule::from_str`, which takes an expression or gives a
/// reason that depends on the expression alone.
#[verifier::external_body]
fn check_cron(expr: &str) -> (r: Result<(), String>)
    ensures
        match r {
            Ok(()) => cron_refusal(expr@) is None,
            Err(why) => cron_refusal(expr@) == Some(why@),
        },
{
    let parsed: Result<cron::Schedule, cron::error::Error> = std::str::FromStr::from_str(expr);
    parsed.map(|_| ()).map_err(|e| e.to_string())
}

/// Calls `cron::Schedule::after` on the schedule of an expression and takes
/// the first time, in UTC. It depends on the expression and the given time
/// alone, and fails exactly where the expression is not taken.
#[verifier::external_body]
fn first_fire(expr: &str, after_ms: i64) -> (r: Result<Option<i64>, String>)
    requires
        0 <= after_ms <= LATEST_MS,
    ensures
        match r {
            Ok(fire) => cron_first_fire(expr@, after_ms as int) == Ok::<Option<i64>, Seq<char>>(
                fire,
            ) && cron_refusal(expr@) is None,
            Err(why) => cron_first_fire(expr@, after_ms as int) == Err::<Option<i64>, Seq<char>>(
                why@,
            ) && cron_refusal(expr@) == Some(why@),
        },
{
    let schedule: cron::Schedule = std::str::FromStr::from_str(expr).map_err(
        |e: cron::error::Error| e.to_string(),
    )?;
    let after = chrono::DateTime::<chrono::Utc>::from_timestamp_millis(after_ms);
    Ok(after.and_then(|t| schedule.after(&t).next()).map(|t| t.timestamp_millis()))
}

/// An expression as the `cron` crate wants it: without surrounding white
/// space, and with a leading seconds field. Standard cron with its five fields
/// has none and fires at the top of the minute.
pub open spec fn normalized(expr: Seq<char>) -> Seq<char> {
    let trimmed = text::trimmed(expr);
    if text::words(trimmed).len() == 5 {
        "0 "@ + trimmed
    } else {
        trimmed
    }
}

/// A cron schedule that the `cron` crate takes.
#[derive(Debug)]
pub struct CronSchedule {
    pub expr: String,
}

/// What an expression that is not taken is reported with.
pub open spec fn bad_cron_text(expr: Seq<char>, why: Seq<char>) -> Seq<char> {
    "invalid cron_schedule "@ + text::debug_quoted(expr) + ": "@ + why
}

/// Parses a cron expression. Standard 5-field cron and 6- or 7-field
/// expressions with a seconds field are both accepted.
pub fn parse_cron_schedule(expr: &str) -> (r: Result<CronSchedule, Error>)
    ensures
        match (r, cron_refusal(normalized(expr@))) {
            (Ok(s), None) => s.expr@ == normalized(expr@) && s.wf(),
            (Err(Error::Vmm(m)), Some(why)) => m@ == bad_cron_text(expr@, why),
            _ => false,
        },
{
    let trimmed = text::trim(expr);
    let fields = text::split_whitespace(&trimmed);
    let normal = if fields.len() == 5 {
        text::cat2("0 ", &trimmed)
    } else {
        trimmed
    };
    match check_cron(&normal) {
        Ok(()) => Ok(CronSchedule { expr: normal }),
        Err(why) => Err(
            Error::Vmm(text::cat4("invalid cron_schedule ", &text::quote(expr), ": ", &why)),
        ),
    }
}

impl CronSchedule {
    /// Whether the `cron` crate takes the expression.
    pub open spec fn wf(self) -> bool {
        cron_refusal(self.expr@) is None
    }

    /// The first fire after a time, in milliseconds since the Unix epoch.
    pub fn next_after(&self, after_ms: i64) -> (fire: Option<i64>)
        requires
            0 <= after_ms <= LATEST_MS,
        ensures
            match cron_first_fire(self.expr@, after_ms as int) {
                Ok(t) => fire == t,
                Err(_) => fire is None,
            },
    {
        match first_fire(&self.expr, after_ms) {
            Ok(t) => t,
            Err(_) => None,
        }
    }
}

/// Whether a fire that follows the previous tick is due by `now`: fires are
/// matched against the window behind the previous tick up to and including
/// now, so the poll interval bounds only how late one is noticed.
pub fn fire_is_due(first_after_tick: Option<i64>, now_ms: i64) -> (due: bool)
    ensures
        due == (first_after_tick is Some && first_after_tick->0 <= now_ms),
{
    match first_after_tick {
        Some(t) => t <= now_ms,
        None => false,
    }
}

/// Whether an expression fired between the previous tick and now. One that is
/// not taken never fires.
pub fn is_due(expr: &str, last_tick_ms: i64, now_ms: i64) -> (due: bool)
    requires
        0 <= last_tick_ms <= LATEST_MS,
    ensures
        due == (cron_refusal(normalized(expr@)) is None && match cron_first_fire(
            normalized(expr@),
            last_tick_ms as int,
        ) {
            Ok(Some(t)) => t <= now_ms,
            _ => false,
        }),
{
    match parse_cron_schedule(expr) {
        Ok(schedule) => fire_is_due(schedule.next_after(last_tick_ms), now_ms),
        Err(_) => false,
    }
}

// ---------------------------------------------------------------------------
// Runs
// ---------------------------------------------------------------------------

/// How often schedules are looked at, in seconds.
pub const SCHEDULE_POLL_SECS: u64 = 5;

/// How often a running command is looked at, in seconds.
pub const RUN_POLL_SECS: u64 = 2;

/// Whether the schedule of a VM fired between the previous tick and now.
pub open spec fn vm_due(e: FcVmEntry, last_tick_ms: i64, now_ms: i64) -> bool {
    &&& e.instance.vm_config.mode is Schedule
    &&& e.instance.vm_config.cron_schedule is Some
    &&& ({
        let expr = normalized(e.instance.vm_config.cron_schedule->0@);
        cron_refusal(expr) is None && match cron_first_fire(expr, last_tick_ms as int) {
            Ok(Some(t)) => t <= now_ms,
            _ => false,
        }
    })
}

/// The VMs whose schedules fired between the previous tick and now, in order.
pub open spec fn due_of(vms: Seq<FcVmEntry>, last_tick_ms: i64, now_ms: i64) -> Seq<Seq<char>>
    decreases vms.len(),
{
    if vms.len() == 0 {
        seq![]
    } else {
        let rest = due_of(vms.drop_last(), last_tick_ms, now_ms);
        if vm_due(vms.last(), last_tick_ms, now_ms) {
            rest.push(vms.last().instance.vm_id.0@)
        } else {
            rest
        }
    }
}

/// How to get a VM up for a scheduled run.
#[derive(Debug, Clone, Copy, PartialEq, Eq, Structural)]
pub enum RunWake {
    /// Wake it.
    Wake,
    /// Start it for the first time.
    Start,
    /// It is up.
    Up,
}

/// What to do about a scheduled command that was started.
#[derive(Debug, Clone, Copy, PartialEq, Eq, Structural)]
pub enum AwaitStep {
    /// It has ended.
    Done,
    /// It overran; stop it.
    Stop,
    /// Look again after [`RUN_POLL_SECS`].
    Poll,
}

/// What to do about a scheduled command: one that overruns its timeout is
/// stopped once, and waited for all the same.
pub fn await_workload(
    active: bool,
    stop_sent: bool,
    started_at: u64,
    now: u64,
    timeout_secs: Option<u64>,
) -> (step: AwaitStep)
    ensures
        step == if !active {
            AwaitStep::Done
        } else if !stop_sent && timeout_secs is Some && crate::vmm::auto_suspend::passed(
            started_at,
            now,
            timeout_secs->0,
        ) {
            AwaitStep::Stop
        } else {
            AwaitStep::Poll
        },
{
    if !active {
        return AwaitStep::Done;
    }
    match timeout_secs {
        Some(secs) => if !stop_sent && has_passed(started_at, now, secs) {
            AwaitStep::Stop
        } else {
            AwaitStep::Poll
        },
        None => AwaitStep::Poll,
    }
}

/// Copies of environment variables.
fn env_copies(env: &Vec<EnvVar>) -> (copy: Vec<EnvVar>)
    ensures
        crate::vmm::guest::env_pairs(copy@) == crate::vmm::guest::env_pairs(env@),
{
    let mut copy: Vec<EnvVar> = Vec::new();
    let mut i: usize = 0;
    while i < env.len()
        invariant
            i <= env@.len(),
            crate::vmm::guest::env_pairs(copy@) == crate::vmm::guest::env_pairs(env@).take(
                i as int,
            ),
        decreases env@.len() - i,
    {
        let ghost before = copy@;
        copy.push(EnvVar { key: env[i].key.clone(), value: env[i].value.clone() });
        proof {
            let all = crate::vmm::guest::env_pairs(env@);
            assert(crate::vmm::guest::env_pairs(copy@) =~= crate::vmm::guest::env_pairs(
                before,
            ).push(all[i as int]));
            assert(all.take(i as int + 1) =~= all.take(i as int).push(all[i as int]));
        }
        i += 1;
    }
    proof {
        let all = crate::vmm::guest::env_pairs(env@);
        assert(all.take(all.len() as int) =~= all);
    }
    copy
}

impl FirecrackerVmm {
    /// The VMs to run now: those whose schedule fired between the previous
    /// tick and now.
    pub fn fire_due_schedules(&self, last_tick_ms: i64, now_ms: i64) -> (due: Vec<VmId>)
        requires
            0 <= last_tick_ms <= LATEST_MS,
        ensures
            crate::vmm::auto_suspend::ids_view(due@) == due_of(self.vms@, last_tick_ms, now_ms),
    {
        let mut due: Vec<VmId> = Vec::new();
        let mut i: usize = 0;
        proof {
            assert(self.vms@.take(0) =~= seq![]);
            assert(crate::vmm::auto_suspend::ids_view(due@) =~= seq![]);
        }
        while i < self.vms.len()
            invariant
                0 <= last_tick_ms <= LATEST_MS,
                i <= self.vms@.len(),
                crate::vmm::auto_suspend::ids_view(due@) == due_of(
                    self.vms@.take(i as int),
                    last_tick_ms,
                    now_ms,
                ),
            decreases self.vms@.len() - i,
        {
            let ghost before = due@;
            proof {
                assert(self.vms@.take(i as int + 1).drop_last() =~= self.vms@.take(i as int));
                assert(self.vms@.take(i as int + 1).last() == self.vms@[i as int]);
            }
            let config = &self.vms[i].instance.vm_config;
            if config.mode == VmMode::Schedule {
                if let Some(expr) = &config.cron_schedule {
                    if is_due(expr, last_tick_ms, now_ms) {
                        let vm_id = self.vms[i].instance.vm_id.clone();
                        let ghost id = vm_id.0@;
                        due.push(vm_id);
                        proof {
                            assert(crate::vmm::auto_suspend::ids_view(due@)
                                =~= crate::vmm::auto_suspend::ids_view(before).push(id));
                        }
                    }
                }
            }
            i += 1;
        }
        proof {
            assert(self.vms@.take(self.vms@.len() as int) =~= self.vms@);
        }
        due
    }

    /// Begins a scheduled run of a VM, unless one is under way: then the fire
    /// is skipped, never queued. The run of a VM that is gone meanwhile fails
    /// when it comes to wake it.
    pub fn spawn_scheduled_run(&mut self, vm_id: &VmId) -> (run: bool)
        requires
            old(self).wf(),
        ensures
            final(self).wf(),
            crate::vmm::firecracker::only_vms(*old(self), *final(self)),
            ({
                let vms = old(self).vms@;
                let i = crate::vmm::firecracker::vm_index(vms, vm_id.0@) as int;
                &&& run == !(i < vms.len() && vms[i].run_active)
                &&& final(self).vms@ == if run && i < vms.len() {
                    vms.update(i, (FcVmEntry { run_active: true, ..vms[i] }))
                } else {
                    vms
                }
            }),
    {
        match self.find(&vm_id.0) {
            None => true,
            Some(i) => {
                if self.vms[i].run_active {
                    return false;
                }
                let ghost before = self.vms@;
                self.vms[i].run_active = true;
                proof {
                    crate::vmm::firecracker::lemma_entry_updated(
                        before,
                        i as int,
                        self.vms@[i as int],
                    );
                    assert(self.vms@ =~= before.update(
                        i as int,
                        (FcVmEntry { run_active: true, ..before[i as int] }),
                    ));
                }
                true
            },
        }
    }

    /// How to get a VM up for a scheduled run. A VM that is up already, by
    /// hand or from a run whose suspend failed, is taken as it is.
    pub fn wake_for_run(&self, vm_id: &VmId) -> (r: Result<RunWake, Error>)
        ensures
            ({
                let i = crate::vmm::firecracker::vm_index(self.vms@, vm_id.0@) as int;
                if i == self.vms@.len() {
                    r matches Err(Error::Vmm(m)) && m@ == "vm "@ + vm_id.0@
                        + " is None; cannot run scheduled cmd"@
                } else {
                    let state = self.vms@[i].instance.state;
                    match state {
                        VmState::Suspended => r == Ok::<RunWake, Error>(RunWake::Wake),
                        VmState::Created => r == Ok::<RunWake, Error>(RunWake::Start),
                        VmState::Started => r == Ok::<RunWake, Error>(RunWake::Up),
                        _ => r matches Err(Error::Vmm(m)) && m@ == "vm "@ + vm_id.0@ + " is Some("@
                            + crate::vmm::state::state_name(state) + "); cannot run scheduled cmd"@,
                    }
                }
            }),
    {
        proof {
            crate::vmm::firecracker::lemma_vm_index(self.vms@, vm_id.0@);
        }
        match self.vm_state(vm_id) {
            None => Err(
                Error::Vmm(
                    text::cat3("vm ", &vm_id.0, " is None; cannot run scheduled cmd"),
                ),
            ),
            Some(VmState::Suspended) => Ok(RunWake::Wake),
            Some(VmState::Created) => Ok(RunWake::Start),
            Some(VmState::Started) => Ok(RunWake::Up),
            Some(state) => Err(
                Error::Vmm(
                    text::cat5(
                        "vm ",
                        &vm_id.0,
                        " is Some(",
                        state.name(),
                        "); cannot run scheduled cmd",
                    ),
                ),
            ),
        }
    }

    /// What a scheduled run of a VM runs, and for how long at most.
    pub fn scheduled_cmd(&self, vm_id: &VmId) -> (r: Result<(WorkloadSpec, Option<u64>), Error>)
        ensures
            ({
                let i = crate::vmm::firecracker::vm_index(self.vms@, vm_id.0@) as int;
                let config = self.vms@[i].instance.vm_config;
                match r {
                    Ok((spec, timeout)) => i < self.vms@.len() && text::views(spec.cmd@)
                        == text::views(config.cmd@) && crate::vmm::guest::env_pairs(spec.env@)
                        == crate::vmm::guest::env_pairs(config.env@) && spec.cwd is None && timeout
                        == config.timeout_secs,
                    Err(Error::VmNotFound(id)) => i == self.vms@.len() && id@ == vm_id.0@,
                    Err(_) => false,
                }
            }),
    {
        match self.find(&vm_id.0) {
            None => Err(Error::VmNotFound(vm_id.0.clone())),
            Some(i) => {
                let config = &self.vms[i].instance.vm_config;
                Ok(
                    (
                        WorkloadSpec {
                            cmd: text::copies(&config.cmd),
                            env: env_copies(&config.env),
                            cwd: None,
                        },
                        config.timeout_secs,
                    ),
                )
            },
        }
    }

    /// Whether to suspend a VM after a scheduled run, however the run went: one
    /// left started would idle forever.
    pub fn suspend_after_run(&self, vm_id: &VmId) -> (suspend: bool)
        ensures
            ({
                let i = crate::vmm::firecracker::vm_index(self.vms@, vm_id.0@) as int;
                suspend == (i < self.vms@.len() && self.vms@[i].instance.state is Started)
            }),
    {
        match self.vm_state(vm_id) {
            Some(state) => state == VmState::Started,
            None => false,
        }
    }

    /// Ends a scheduled run of a VM.
    pub fn end_scheduled_run(&mut self, vm_id: &VmId)
        requires
            old(self).wf(),
        ensures
            final(self).wf(),
            crate::vmm::firecracker::only_vms(*old(self), *final(self)),
            ({
                let vms = old(self).vms@;
                let i = crate::vmm::firecracker::vm_index(vms, vm_id.0@) as int;
                final(self).vms@ == if i < vms.len() {
                    vms.update(i, (FcVmEntry { run_active: false, ..vms[i] }))
                } else {
                    vms
                }
            }),
    {
        if let Some(i) = self.find(&vm_id.0) {
            let ghost before = self.vms@;
            self.vms[i].run_active = false;
            proof {
                crate::vmm::firecracker::lemma_entry_updated(
                    before,
                    i as int,
                    self.vms@[i as int],
                );
                assert(self.vms@ =~= before.update(
                    i as int,
                    (FcVmEntry { run_active: false, ..before[i as int] }),
                ));
            }
        }
    }
}

/// While a scheduled run is on, no other begins, and when it has ended one can
/// again: fires in between are skipped, not kept for later.
pub proof fn law_scheduled_runs_never_overlap(vms: Seq<FcVmEntry>, vm_id: Seq<char>)
    requires
        crate::vmm::firecracker::vm_index(vms, vm_id) < vms.len(),
        !vms[crate::vmm::firecracker::vm_index(vms, vm_id) as int].run_active,
    ensures
        ({
            let i = crate::vmm::firecracker::vm_index(vms, vm_id) as int;
            let held = vms.update(i, (FcVmEntry { run_active: true, ..vms[i] }));
            let k = crate::vmm::firecracker::vm_index(held, vm_id) as int;
            &&& k == i
            &&& held[k].run_active
            &&& held.update(k, (FcVmEntry { run_active: false, ..held[k] })) == vms
        }),
{
    let i = crate::vmm::firecracker::vm_index(vms, vm_id) as int;
    let e = (FcVmEntry { run_active: true, ..vms[i] });
    crate::vmm::firecracker::lemma_entry_updated(vms, i, e);
    let held = vms.update(i, e);
    assert(held.update(i, (FcVmEntry { run_active: false, ..held[i] })) =~= vms);
}

/// The first fire behind a tick is due as soon as it has come, and not before:
/// how often schedules are looked at decides only how late it is noticed.
pub proof fn law_poll_only_delays_fires(
    e: FcVmEntry,
    tick: i64,
    sooner: i64,
    later: i64,
    fire: i64,
)
    requires
        sooner <= later,
        e.instance.vm_config.mode is Schedule,
        e.instance.vm_config.cron_schedule is Some,
        cron_refusal(normalized(e.instance.vm_config.cron_schedule->0@)) is None,
        cron_first_fire(
            normalized(e.instance.vm_config.cron_schedule->0@),
            tick as int,
        ) == Ok::<Option<i64>, Seq<char>>(Some(fire)),
    ensures
        vm_due(e, tick, sooner) <==> fire <= sooner,
        vm_due(e, tick, sooner) ==> vm_due(e, tick, later),
{
}

} // verus!
