//! Workloads in a VM, and the conversation with its guest agent about them.

use vstd::prelude::*;

use crate::error::Error;
use crate::net::types::ExposedPort;
use crate::text;
use crate::vmm::firecracker::{find_workload, FcVmEntry, FirecrackerVmm};
use crate::vmm::state::VmState;
use crate::vmm::vm::{EnvVar, VmId};
use crate::vmm::vsock::{GuestEvent, GuestRequest, GuestWorkloadInfo};
use crate::vmm::workload::{Workload, WorkloadId, WorkloadOrigin, WorkloadSpec};

verus! {

/// An entry with other workloads.
pub open spec fn with_workloads(e: FcVmEntry, after: FcVmEntry, workloads: Seq<Workload>) -> bool {
    after == (FcVmEntry { workloads: after.workloads, ..e }) && after.workloads@ == workloads
}

/// Whether the entry of a VM is changed to one with other workloads, and
/// nothing else.
pub open spec fn workloads_changed(
    before: FirecrackerVmm,
    after: FirecrackerVmm,
    i: int,
    workloads: Seq<Workload>,
) -> bool {
    &&& crate::vmm::firecracker::only_vms(before, after)
    &&& after.vms@.len() == before.vms@.len()
    &&& after.vms@ == before.vms@.update(i, after.vms@[i])
    &&& with_workloads(before.vms@[i], after.vms@[i], workloads)
}

/// The workloads with one more; one of the same name is replaced.
pub open spec fn workload_inserted(workloads: Seq<Workload>, w: Workload) -> Seq<Workload> {
    let k = crate::vmm::firecracker::workload_index(workloads, w.workload_id.0@) as int;
    if k < workloads.len() {
        workloads.update(k, w)
    } else {
        workloads.push(w)
    }
}

/// The workloads without one.
pub open spec fn workload_removed(workloads: Seq<Workload>, id: Seq<char>) -> Seq<Workload> {
    let k = crate::vmm::firecracker::workload_index(workloads, id) as int;
    if k < workloads.len() {
        workloads.remove(k)
    } else {
        workloads
    }
}

/// Environment variables as name and value.
pub open spec fn env_pairs(env: Seq<EnvVar>) -> Seq<(Seq<char>, Seq<char>)> {
    env.map_values(|e: EnvVar| (e.key@, e.value@))
}

/// Pairs of texts.
pub open spec fn pair_views(env: Seq<(String, String)>) -> Seq<(Seq<char>, Seq<char>)> {
    env.map_values(|e: (String, String)| (e.0@, e.1@))
}

/// The request to start a workload.
pub open spec fn starts(req: GuestRequest, w: Workload) -> bool {
    &&& req is Start
    &&& req->Start_workload_id@ == w.workload_id.0@
    &&& text::views(req->cmd@) == text::views(w.spec.cmd@)
    &&& pair_views(req->env@) == env_pairs(w.spec.env@)
    &&& text::opt_view(req->cwd) == text::opt_view(w.spec.cwd)
}

/// The request to start a workload. Of variables with the same name the last
/// one counts.
fn start_request(w: &Workload) -> (req: GuestRequest)
    ensures
        starts(req, *w),
{
    let mut env: Vec<(String, String)> = Vec::new();
    let mut i: usize = 0;
    while i < w.spec.env.len()
        invariant
            i <= w.spec.env@.len(),
            pair_views(env@) == env_pairs(w.spec.env@).take(i as int),
        decreases w.spec.env@.len() - i,
    {
        let ghost before = env@;
        env.push((w.spec.env[i].key.clone(), w.spec.env[i].value.clone()));
        proof {
            let all = env_pairs(w.spec.env@);
            assert(pair_views(env@) =~= pair_views(before).push(all[i as int]));
            assert(all.take(i as int + 1) =~= all.take(i as int).push(all[i as int]));
        }
        i += 1;
    }
    proof {
        let all = env_pairs(w.spec.env@);
        assert(all.take(all.len() as int) =~= all);
    }
    let cwd = match &w.spec.cwd {
        Some(dir) => Some(dir.clone()),
        None => None,
    };
    GuestRequest::Start {
        workload_id: w.workload_id.0.clone(),
        cmd: text::copies(&w.spec.cmd),
        env,
        cwd,
    }
}

impl FirecrackerVmm {
    /// Checks whether a workload can be started in a VM, and says where its
    /// output will be logged.
    pub fn check_workload(&self, vm_id: &VmId, spec: &WorkloadSpec) -> (r: Result<&String, Error>)
        ensures
            ({
                let i = crate::vmm::firecracker::vm_index(self.vms@, vm_id.0@) as int;
                if spec.cmd@.len() == 0 {
                    r matches Err(Error::Vmm(m)) && m@ == "workload cmd must not be empty"@
                } else if i == self.vms@.len() {
                    r matches Err(Error::VmNotFound(id)) && id@ == vm_id.0@
                } else if !(self.vms@[i].instance.state is Started) {
                    r matches Err(Error::Vmm(m)) && m@ == "vm "@ + vm_id.0@ + " is "@
                        + crate::vmm::state::state_name(self.vms@[i].instance.state)
                        + "; workloads require a started vm"@
                } else {
                    r matches Ok(dir) && *dir == self.vms@[i].workloads_dir
                }
            }),
    {
        if spec.cmd.len() == 0 {
            return Err(Error::Vmm("workload cmd must not be empty".to_owned()));
        }
        match self.find(&vm_id.0) {
            None => Err(Error::VmNotFound(vm_id.0.clone())),
            Some(i) => {
                let state = self.vms[i].instance.state;
                if state != VmState::Started {
                    return Err(
                        Error::Vmm(
                            text::cat5(
                                "vm ",
                                &vm_id.0,
                                " is ",
                                state.name(),
                                "; workloads require a started vm",
                            ),
                        ),
                    );
                }
                Ok(&self.vms[i].workloads_dir)
            },
        }
    }

    /// Registers a workload and gives the request that starts it. It is
    /// registered first, so that an event that arrives at once finds it.
    pub fn start_workload(&mut self, vm_id: &VmId, workload: Workload) -> (r: Result<
        GuestRequest,
        Error,
    >)
        requires
            old(self).wf(),
        ensures
            final(self).wf(),
            ({
                let i = crate::vmm::firecracker::vm_index(old(self).vms@, vm_id.0@) as int;
                match r {
                    Ok(req) => i < old(self).vms@.len() && starts(req, workload)
                        && workloads_changed(
                        *old(self),
                        *final(self),
                        i,
                        workload_inserted(old(self).vms@[i].workloads@, workload),
                    ),
                    Err(Error::VmNotFound(id)) => i == old(self).vms@.len() && id@ == vm_id.0@
                        && *final(self) == *old(self),
                    Err(_) => false,
                }
            }),
    {
        match self.find(&vm_id.0) {
            None => Err(Error::VmNotFound(vm_id.0.clone())),
            Some(i) => {
                let ghost before = self.vms@;
                let req = start_request(&workload);
                match find_workload(&self.vms[i].workloads, &workload.workload_id.0) {
                    Some(k) => {
                        self.vms[i].workloads.set(k, workload);
                    },
                    None => {
                        self.vms[i].workloads.push(workload);
                    },
                }
                proof {
                    lemma_inserted_distinct(before[i as int].workloads@, workload);
                    crate::vmm::firecracker::lemma_entry_updated(
                        before,
                        i as int,
                        self.vms@[i as int],
                    );
                    assert(self.vms@ =~= before.update(i as int, self.vms@[i as int]));
                }
                Ok(req)
            },
        }
    }

    /// Forgets a workload whose start request could not be sent.
    pub fn forget_workload(&mut self, vm_id: &VmId, workload_id: &WorkloadId)
        requires
            old(self).wf(),
        ensures
            final(self).wf(),
            ({
                let i = crate::vmm::firecracker::vm_index(old(self).vms@, vm_id.0@) as int;
                if i < old(self).vms@.len() {
                    workloads_changed(
                        *old(self),
                        *final(self),
                        i,
                        workload_removed(old(self).vms@[i].workloads@, workload_id.0@),
                    )
                } else {
                    *final(self) == *old(self)
                }
            }),
    {
        if let Some(i) = self.find(&vm_id.0) {
            let ghost before = self.vms@;
            if let Some(k) = find_workload(&self.vms[i].workloads, &workload_id.0) {
                let _gone = self.vms[i].workloads.remove(k);
            }
            proof {
                lemma_removed_distinct(before[i as int].workloads@, workload_id.0@);
                crate::vmm::firecracker::lemma_entry_updated(
                    before,
                    i as int,
                    self.vms@[i as int],
                );
                assert(self.vms@ =~= before.update(i as int, self.vms@[i as int]));
            }
        }
    }

    /// Asks for a workload to be stopped. It lands in `Stopped` when its exit
    /// is reported.
    pub fn stop_workload(&mut self, vm_id: &VmId, workload_id: &WorkloadId) -> (r: Result<
        GuestRequest,
        Error,
    >)
        requires
            old(self).wf(),
        ensures
            final(self).wf(),
            ({
                let vms = old(self).vms@;
                let i = crate::vmm::firecracker::vm_index(vms, vm_id.0@) as int;
                let w = vms[i].workloads@;
                let k = crate::vmm::firecracker::workload_index(w, workload_id.0@) as int;
                match r {
                    Ok(req) => i < vms.len() && k < w.len() && crate::vmm::workload::active(
                        w[k].state,
                    ) && (req matches GuestRequest::Stop { workload_id: id } && id@
                        == workload_id.0@) && workloads_changed(
                        *old(self),
                        *final(self),
                        i,
                        w.update(k, (Workload { stop_requested: true, ..w[k] })),
                    ),
                    Err(e) => *final(self) == *old(self) && stop_refused(
                        e,
                        vms,
                        vm_id.0@,
                        workload_id.0@,
                    ),
                }
            }),
    {
        let i = match self.find(&vm_id.0) {
            None => {
                return Err(Error::VmNotFound(vm_id.0.clone()));
            },
            Some(i) => i,
        };
        let k = match find_workload(&self.vms[i].workloads, &workload_id.0) {
            None => {
                return Err(Error::WorkloadNotFound(workload_id.0.clone()));
            },
            Some(k) => k,
        };
        if !self.vms[i].workloads[k].is_active() {
            return Err(
                Error::Vmm(
                    text::cat5(
                        "workload ",
                        &workload_id.0,
                        " is ",
                        self.vms[i].workloads[k].state.name(),
                        "; only active workloads can be stopped",
                    ),
                ),
            );
        }
        let ghost before = self.vms@;
        self.vms[i].workloads[k].stop_requested = true;
        proof {
            crate::vmm::firecracker::lemma_same_names(
                before[i as int].workloads@,
                self.vms@[i as int].workloads@,
            );
            crate::vmm::firecracker::lemma_entry_updated(before, i as int, self.vms@[i as int]);
            assert(self.vms@ =~= before.update(i as int, self.vms@[i as int]));
        }
        Ok(GuestRequest::Stop { workload_id: workload_id.0.clone() })
    }

    /// Takes a stop back whose request could not be sent.
    pub fn cancel_stop(&mut self, vm_id: &VmId, workload_id: &WorkloadId)
        requires
            old(self).wf(),
        ensures
            final(self).wf(),
            ({
                let vms = old(self).vms@;
                let i = crate::vmm::firecracker::vm_index(vms, vm_id.0@) as int;
                let w = vms[i].workloads@;
                let k = crate::vmm::firecracker::workload_index(w, workload_id.0@) as int;
                if i < vms.len() && k < w.len() {
                    workloads_changed(
                        *old(self),
                        *final(self),
                        i,
                        w.update(k, (Workload { stop_requested: false, ..w[k] })),
                    )
                } else {
                    *final(self) == *old(self)
                }
            }),
    {
        if let Some(i) = self.find(&vm_id.0) {
            if let Some(k) = find_workload(&self.vms[i].workloads, &workload_id.0) {
                let ghost before = self.vms@;
                self.vms[i].workloads[k].stop_requested = false;
                proof {
                    crate::vmm::firecracker::lemma_same_names(
                        before[i as int].workloads@,
                        self.vms@[i as int].workloads@,
                    );
                    crate::vmm::firecracker::lemma_entry_updated(
                        before,
                        i as int,
                        self.vms@[i as int],
                    );
                    assert(self.vms@ =~= before.update(i as int, self.vms@[i as int]));
                }
            }
        }
    }

    /// Tags a workload as a scheduled run.
    pub fn tag_scheduled(&mut self, vm_id: &VmId, workload_id: &WorkloadId)
        requires
            old(self).wf(),
        ensures
            final(self).wf(),
            ({
                let vms = old(self).vms@;
                let i = crate::vmm::firecracker::vm_index(vms, vm_id.0@) as int;
                let w = vms[i].workloads@;
                let k = crate::vmm::firecracker::workload_index(w, workload_id.0@) as int;
                if i < vms.len() && k < w.len() {
                    workloads_changed(
                        *old(self),
                        *final(self),
                        i,
                        w.update(k, (Workload { origin: WorkloadOrigin::Schedule, ..w[k] })),
                    )
                } else {
                    *final(self) == *old(self)
                }
            }),
    {
        if let Some(i) = self.find(&vm_id.0) {
            if let Some(k) = find_workload(&self.vms[i].workloads, &workload_id.0) {
                let ghost before = self.vms@;
                self.vms[i].workloads[k].origin = WorkloadOrigin::Schedule;
                proof {
                    crate::vmm::firecracker::lemma_same_names(
                        before[i as int].workloads@,
                        self.vms@[i as int].workloads@,
                    );
                    crate::vmm::firecracker::lemma_entry_updated(
                        before,
                        i as int,
                        self.vms@[i as int],
                    );
                    assert(self.vms@ =~= before.update(i as int, self.vms@[i as int]));
                }
            }
        }
    }

    /// All workloads of a VM.
    pub fn list_workloads(&self, vm_id: &VmId) -> (r: Result<&Vec<Workload>, Error>)
        ensures
            ({
                let i = crate::vmm::firecracker::vm_index(self.vms@, vm_id.0@) as int;
                match r {
                    Ok(w) => i < self.vms@.len() && *w == self.vms@[i].workloads,
                    Err(Error::VmNotFound(id)) => i == self.vms@.len() && id@ == vm_id.0@,
                    Err(_) => false,
                }
            }),
    {
        match self.find(&vm_id.0) {
            None => Err(Error::VmNotFound(vm_id.0.clone())),
            Some(i) => Ok(&self.vms[i].workloads),
        }
    }

    /// A workload of a VM.
    pub fn get_workload(&self, vm_id: &VmId, workload_id: &WorkloadId) -> (r: Result<
        &Workload,
        Error,
    >)
        ensures
            ({
                let i = crate::vmm::firecracker::vm_index(self.vms@, vm_id.0@) as int;
                let w = self.vms@[i].workloads@;
                let k = crate::vmm::firecracker::workload_index(w, workload_id.0@) as int;
                match r {
                    Ok(found) => i < self.vms@.len() && k < w.len() && *found == w[k],
                    Err(Error::VmNotFound(id)) => i == self.vms@.len() && id@ == vm_id.0@,
                    Err(Error::WorkloadNotFound(id)) => i < self.vms@.len() && k == w.len() && id@
                        == workload_id.0@,
                    Err(_) => false,
                }
            }),
    {
        match self.find(&vm_id.0) {
            None => Err(Error::VmNotFound(vm_id.0.clone())),
            Some(i) => match find_workload(&self.vms[i].workloads, &workload_id.0) {
                None => Err(Error::WorkloadNotFound(workload_id.0.clone())),
                Some(k) => Ok(&self.vms[i].workloads[k]),
            },
        }
    }

    /// Where the output of a workload is logged. A file that is not there yet
    /// stands for an empty log.
    pub fn workload_logs(&self, vm_id: &VmId, workload_id: &WorkloadId) -> (r: Result<
        String,
        Error,
    >)
        ensures
            ({
                let i = crate::vmm::firecracker::vm_index(self.vms@, vm_id.0@) as int;
                let w = self.vms@[i].workloads@;
                let k = crate::vmm::firecracker::workload_index(w, workload_id.0@) as int;
                match r {
                    Ok(path) => i < self.vms@.len() && k < w.len() && path@ == text::path_joined(
                        self.vms@[i].workloads_dir@,
                        workload_id.0@ + ".log"@,
                    ),
                    Err(Error::VmNotFound(id)) => i == self.vms@.len() && id@ == vm_id.0@,
                    Err(Error::WorkloadNotFound(id)) => i < self.vms@.len() && k == w.len() && id@
                        == workload_id.0@,
                    Err(_) => false,
                }
            }),
    {
        match self.find(&vm_id.0) {
            None => Err(Error::VmNotFound(vm_id.0.clone())),
            Some(i) => match find_workload(&self.vms[i].workloads, &workload_id.0) {
                None => Err(Error::WorkloadNotFound(workload_id.0.clone())),
                Some(_) => Ok(workload_id.log_path(&self.vms[i].workloads_dir)),
            },
        }
    }
}

/// Why a workload cannot be stopped.
pub open spec fn stop_refused(
    e: Error,
    vms: Seq<FcVmEntry>,
    vm_id: Seq<char>,
    workload_id: Seq<char>,
) -> bool {
    let i = crate::vmm::firecracker::vm_index(vms, vm_id) as int;
    let w = vms[i].workloads@;
    let k = crate::vmm::firecracker::workload_index(w, workload_id) as int;
    match e {
        Error::VmNotFound(id) => i == vms.len() && id@ == vm_id,
        Error::WorkloadNotFound(id) => i < vms.len() && k == w.len() && id@ == workload_id,
        Error::Vmm(m) => i < vms.len() && k < w.len() && !crate::vmm::workload::active(w[k].state)
            && m@ == "workload "@ + workload_id + " is "@
            + crate::vmm::workload::workload_state_name(w[k].state)
            + "; only active workloads can be stopped"@,
        _ => false,
    }
}

// ---------------------------------------------------------------------------
// Events
// ---------------------------------------------------------------------------

/// What else to do about an event.
#[derive(Debug)]
pub enum EventAction {
    Nothing,
    /// Append a line to a log.
    AppendLog { path: String, stream: String, data: String },
    /// The guest is idle; ask the suspend gate.
    ReportIdle,
}

/// The workloads with one of them changed, if it is there.
pub open spec fn changed_at(workloads: Seq<Workload>, id: Seq<char>, w: Workload) -> Seq<Workload> {
    let k = crate::vmm::firecracker::workload_index(workloads, id) as int;
    if k < workloads.len() {
        workloads.update(k, w)
    } else {
        workloads
    }
}

/// The workload of a name.
pub open spec fn workload_of(workloads: Seq<Workload>, id: Seq<char>) -> Workload {
    workloads[crate::vmm::firecracker::workload_index(workloads, id) as int]
}

/// The workloads once the agent's word on one of them was taken.
pub open spec fn info_taken(workloads: Seq<Workload>, info: GuestWorkloadInfo, now: u64) -> Seq<
    Workload,
> {
    let id = info.workload_id@;
    let w = workload_of(workloads, id);
    if info.state@ == "running"@ {
        changed_at(workloads, id, crate::vmm::workload::running(w, None, now))
    } else if info.state@ == "exited"@ {
        changed_at(
            workloads,
            id,
            crate::vmm::workload::exited(w, info.exit_code, info.signal, now),
        )
    } else {
        workloads
    }
}

/// The workloads once the agent's whole table was taken.
pub open spec fn table_taken(workloads: Seq<Workload>, infos: Seq<GuestWorkloadInfo>, now: u64) -> Seq<
    Workload,
>
    decreases infos.len(),
{
    if infos.len() == 0 {
        workloads
    } else {
        info_taken(table_taken(workloads, infos.drop_last(), now), infos.last(), now)
    }
}

/// The workloads of a VM after an event.
pub open spec fn after_event(workloads: Seq<Workload>, event: GuestEvent, now: u64) -> Seq<
    Workload,
> {
    match event {
        GuestEvent::Started { workload_id, pid } => changed_at(
            workloads,
            workload_id@,
            crate::vmm::workload::running(
                workload_of(workloads, workload_id@),
                Some(pid),
                now,
            ),
        ),
        GuestEvent::Exited { workload_id, exit_code, signal } => changed_at(
            workloads,
            workload_id@,
            crate::vmm::workload::exited(
                workload_of(workloads, workload_id@),
                exit_code,
                signal,
                now,
            ),
        ),
        GuestEvent::Error { workload_id: Some(id), message: _ } => changed_at(
            workloads,
            id@,
            crate::vmm::workload::failed(workload_of(workloads, id@), now),
        ),
        GuestEvent::ListResult { workloads: infos } => table_taken(workloads, infos@, now),
        _ => workloads,
    }
}

/// Takes the agent's word on one workload.
fn take_info(workloads: &mut Vec<Workload>, info: &GuestWorkloadInfo, now: u64)
    ensures
        final(workloads)@ == info_taken(old(workloads)@, *info, now),
{
    if let Some(k) = find_workload(workloads, &info.workload_id) {
        if text::str_eq(&info.state, "running") {
            workloads[k].mark_running(None, now);
        } else if text::str_eq(&info.state, "exited") {
            workloads[k].mark_finished(info.exit_code, info.signal, now);
        }
    }
    proof {
        assert(workloads@ =~= info_taken(old(workloads)@, *info, now));
    }
}

/// Takes an event's word on the workloads of a VM.
pub fn apply_event(workloads: &mut Vec<Workload>, event: &GuestEvent, now: u64)
    ensures
        final(workloads)@ == after_event(old(workloads)@, *event, now),
{
    match event {
        GuestEvent::Started { workload_id, pid } => {
            if let Some(k) = find_workload(workloads, workload_id) {
                workloads[k].mark_running(Some(*pid), now);
            }
        },
        GuestEvent::Exited { workload_id, exit_code, signal } => {
            if let Some(k) = find_workload(workloads, workload_id) {
                workloads[k].mark_finished(*exit_code, *signal, now);
            }
        },
        GuestEvent::Error { workload_id, message: _ } => {
            if let Some(id) = workload_id {
                if let Some(k) = find_workload(workloads, id) {
                    workloads[k].mark_failed(now);
                }
            }
        },
        GuestEvent::ListResult { workloads: infos } => {
            let ghost before = workloads@;
            let mut j: usize = 0;
            proof {
                assert(infos@.take(0) =~= seq![]);
            }
            while j < infos.len()
                invariant
                    j <= infos@.len(),
                    workloads@ == table_taken(before, infos@.take(j as int), now),
                decreases infos@.len() - j,
            {
                take_info(workloads, &infos[j], now);
                proof {
                    assert(infos@.take(j as int + 1).drop_last() =~= infos@.take(j as int));
                }
                j += 1;
            }
            proof {
                assert(infos@.take(infos@.len() as int) =~= infos@);
            }
        },
        GuestEvent::Output { .. } => {},
        GuestEvent::Idle => {},
    }
    proof {
        assert(workloads@ =~= after_event(old(workloads)@, *event, now));
    }
}

/// A workload after the agent's word on it.
pub open spec fn word_taken(w: Workload, info: GuestWorkloadInfo, now: u64) -> Workload {
    if info.state@ == "running"@ {
        crate::vmm::workload::running(w, None, now)
    } else if info.state@ == "exited"@ {
        crate::vmm::workload::exited(w, info.exit_code, info.signal, now)
    } else {
        w
    }
}

/// A workload after what the agent's table says of it, by its name.
pub open spec fn words_taken(w: Workload, infos: Seq<GuestWorkloadInfo>, now: u64) -> Workload
    decreases infos.len(),
{
    if infos.len() == 0 {
        w
    } else {
        let known = words_taken(w, infos.drop_last(), now);
        if infos.last().workload_id@ == w.workload_id.0@ {
            word_taken(known, infos.last(), now)
        } else {
            known
        }
    }
}

/// Adding a workload, in place of one of the same name, keeps them distinct.
proof fn lemma_inserted_distinct(workloads: Seq<Workload>, w: Workload)
    requires
        crate::vmm::firecracker::distinct_workloads(workloads),
    ensures
        crate::vmm::firecracker::distinct_workloads(workload_inserted(workloads, w)),
{
    let id = w.workload_id.0@;
    crate::vmm::firecracker::lemma_workload_index(workloads, id);
    let k = crate::vmm::firecracker::workload_index(workloads, id) as int;
    let after = workload_inserted(workloads, w);
    if k < workloads.len() {
        crate::vmm::firecracker::lemma_same_names(workloads, after);
    } else {
        assert forall|i: int, j: int| 0 <= i < j < after.len() implies (
        #[trigger] after[i]).workload_id.0@ != (#[trigger] after[j]).workload_id.0@ by {
            assert(after[i] == workloads[i]);
            if j < workloads.len() {
                assert(after[j] == workloads[j]);
            } else {
                assert(!crate::vmm::firecracker::is_workload(workloads[i], id));
            }
        }
    }
}

/// Removing a workload keeps the others distinct.
proof fn lemma_removed_distinct(workloads: Seq<Workload>, id: Seq<char>)
    requires
        crate::vmm::firecracker::distinct_workloads(workloads),
    ensures
        crate::vmm::firecracker::distinct_workloads(workload_removed(workloads, id)),
{
    let k = crate::vmm::firecracker::workload_index(workloads, id) as int;
    let after = workload_removed(workloads, id);
    if k < workloads.len() {
        assert forall|i: int, j: int| 0 <= i < j < after.len() implies (
        #[trigger] after[i]).workload_id.0@ != (#[trigger] after[j]).workload_id.0@ by {
            assert(after[i] == workloads[if i < k { i } else { i + 1 }]);
            assert(after[j] == workloads[if j < k { j } else { j + 1 }]);
        }
    }
}

/// An event changes no workload's name.
proof fn lemma_event_keeps_names(workloads: Seq<Workload>, event: GuestEvent, now: u64)
    ensures
        after_event(workloads, event, now).len() == workloads.len(),
        forall|k: int|
            0 <= k < workloads.len() ==> (#[trigger] after_event(
                workloads,
                event,
                now,
            )[k]).workload_id.0@ == workloads[k].workload_id.0@,
{
    if let GuestEvent::ListResult { workloads: infos } = event {
        lemma_table_keeps_names(workloads, infos@, now);
        let after = table_taken(workloads, infos@, now);
        assert forall|k: int| 0 <= k < workloads.len() implies (
        #[trigger] after[k]).workload_id.0@ == workloads[k].workload_id.0@ by {}
    }
}

/// What the agent's table says is taken by name: of each workload exactly what
/// the table says of that one, and nothing of a workload that it does not list.
pub proof fn law_table_is_taken_by_name(
    workloads: Seq<Workload>,
    infos: Seq<GuestWorkloadInfo>,
    now: u64,
    k: int,
)
    requires
        crate::vmm::firecracker::distinct_workloads(workloads),
        0 <= k < workloads.len(),
    ensures
        table_taken(workloads, infos, now).len() == workloads.len(),
        table_taken(workloads, infos, now)[k] == words_taken(workloads[k], infos, now),
    decreases infos.len(),
{
    lemma_table_keeps_names(workloads, infos, now);
    if infos.len() > 0 {
        let init = infos.drop_last();
        let id = infos.last().workload_id@;
        let known = table_taken(workloads, init, now);
        law_table_is_taken_by_name(workloads, init, now, k);
        lemma_table_keeps_names(workloads, init, now);
        assert forall|j: int| 0 <= j < known.len() implies (#[trigger] known[j]).workload_id.0@
            == workloads[j].workload_id.0@ by {}
        crate::vmm::firecracker::lemma_same_names(workloads, known);
        crate::vmm::firecracker::lemma_workload_index(known, id);
        let at = crate::vmm::firecracker::workload_index(known, id) as int;
        assert(known[k].workload_id.0@ == workloads[k].workload_id.0@);
        if workloads[k].workload_id.0@ == id {
            assert(crate::vmm::firecracker::is_workload(known[k], id));
            if at < k {
                assert(known[at].workload_id.0@ != known[k].workload_id.0@);
            } else if k < at {
                assert(!crate::vmm::firecracker::is_workload(known[k], id));
            }
        } else if at < known.len() {
            assert(at != k);
        }
    }
}

/// What else an event asks for.
pub open spec fn action_for(action: EventAction, event: GuestEvent, workloads_dir: Seq<char>) -> bool {
    match event {
        GuestEvent::Output { workload_id, stream, data } => match action {
            EventAction::AppendLog { path, stream: s, data: d } => path@ == text::path_joined(
                workloads_dir,
                workload_id@ + ".log"@,
            ) && s == stream && d == data,
            _ => false,
        },
        GuestEvent::Idle => action is ReportIdle,
        _ => action is Nothing,
    }
}

impl FirecrackerVmm {
    /// Takes an event of a VM's guest agent. After a reconnect its table says
    /// which workloads have exited or come up meanwhile.
    pub fn handle_guest_event(
        &mut self,
        vm_id: &VmId,
        workloads_dir: &str,
        event: GuestEvent,
        now: u64,
    ) -> (action: EventAction)
        requires
            old(self).wf(),
        ensures
            final(self).wf(),
            action_for(action, event, workloads_dir@),
            ({
                let i = crate::vmm::firecracker::vm_index(old(self).vms@, vm_id.0@) as int;
                if i < old(self).vms@.len() {
                    workloads_changed(
                        *old(self),
                        *final(self),
                        i,
                        after_event(old(self).vms@[i].workloads@, event, now),
                    ) && (event matches GuestEvent::ListResult { workloads: infos } ==> forall|
                        k: int,
                    |
                        0 <= k < old(self).vms@[i].workloads@.len()
                            ==> #[trigger] final(self).vms@[i].workloads@[k] == words_taken(
                            old(self).vms@[i].workloads@[k],
                            infos@,
                            now,
                        ))
                } else {
                    *final(self) == *old(self)
                }
            }),
    {
        if let Some(i) = self.find(&vm_id.0) {
            let ghost before = self.vms@;
            apply_event(&mut self.vms[i].workloads, &event, now);
            proof {
                let was = before[i as int].workloads@;
                lemma_event_keeps_names(was, event, now);
                crate::vmm::firecracker::lemma_same_names(was, self.vms@[i as int].workloads@);
                if event is ListResult {
                    let infos = event->workloads@;
                    let got = self.vms@[i as int].workloads@;
                    assert forall|k: int| 0 <= k < was.len() implies #[trigger] got[k]
                        == words_taken(was[k], infos, now) by {
                        law_table_is_taken_by_name(was, infos, now, k);
                    }
                }
                crate::vmm::firecracker::lemma_entry_updated(
                    before,
                    i as int,
                    self.vms@[i as int],
                );
                assert(self.vms@ =~= before.update(i as int, self.vms@[i as int]));
            }
        }
        match event {
            GuestEvent::Output { workload_id, stream, data } => EventAction::AppendLog {
                path: WorkloadId(workload_id).log_path(workloads_dir),
                stream,
                data,
            },
            GuestEvent::Idle => EventAction::ReportIdle,
            _ => EventAction::Nothing,
        }
    }

    // -----------------------------------------------------------------------
    // Connections
    // -----------------------------------------------------------------------

    /// Where to connect to a VM's guest agent, unless a connection is live.
    pub fn guest_conn(&self, vm_id: &VmId) -> (r: Result<ConnNeed, Error>)
        ensures
            ({
                let i = crate::vmm::firecracker::vm_index(self.vms@, vm_id.0@) as int;
                if i == self.vms@.len() {
                    r matches Err(Error::VmNotFound(id)) && id@ == vm_id.0@
                } else {
                    match self.vms@[i].guest_conn {
                        Some(conn) => r == Ok::<ConnNeed, Error>(ConnNeed::Live(conn)),
                        None => r matches Ok(ConnNeed::Connect { uds_path }) && uds_path@
                            == self.vms@[i].instance.vsock_uds_path@,
                    }
                }
            }),
    {
        match self.find(&vm_id.0) {
            None => Err(Error::VmNotFound(vm_id.0.clone())),
            Some(i) => match self.vms[i].guest_conn {
                Some(conn) => Ok(ConnNeed::Live(conn)),
                None => Ok(
                    ConnNeed::Connect { uds_path: self.vms[i].instance.vsock_uds_path.clone() },
                ),
            },
        }
    }

    /// Takes a fresh connection over, and says what to ask of the agent first:
    /// its workload table, so that what was missed while disconnected is made
    /// up for, and to set its idle detector up.
    pub fn install_guest_conn(&mut self, vm_id: &VmId, conn: u64) -> (r: Result<
        Vec<GuestRequest>,
        Error,
    >)
        requires
            old(self).wf(),
        ensures
            final(self).wf(),
            crate::vmm::firecracker::only_vms(*old(self), *final(self)),
            ({
                let vms = old(self).vms@;
                let i = crate::vmm::firecracker::vm_index(vms, vm_id.0@) as int;
                match r {
                    Ok(requests) => i < vms.len() && greets(requests@, vms[i]) && final(self).vms@
                        == vms.update(i, (FcVmEntry { guest_conn: Some(conn), ..vms[i] })),
                    Err(Error::VmNotFound(id)) => i == vms.len() && id@ == vm_id.0@ && final(self).vms@ == vms,
                    Err(_) => false,
                }
            }),
    {
        match self.find(&vm_id.0) {
            None => Err(Error::VmNotFound(vm_id.0.clone())),
            Some(i) => {
                let ghost before = self.vms@;
                self.vms[i].guest_conn = Some(conn);
                proof {
                    crate::vmm::firecracker::lemma_entry_updated(
                        before,
                        i as int,
                        self.vms@[i as int],
                    );
                    assert(self.vms@ =~= before.update(
                        i as int,
                        (FcVmEntry { guest_conn: Some(conn), ..before[i as int] }),
                    ));
                }
                let mut requests: Vec<GuestRequest> = Vec::new();
                requests.push(GuestRequest::List);
                if let Some(c) = &self.vms[i].instance.vm_config.auto_suspend {
                    requests.push(
                        GuestRequest::ConfigureAutoSuspend {
                            idle_check_cmd: text::copies(&c.idle_check_cmd),
                            check_interval_secs: c.check_interval_secs,
                        },
                    );
                }
                Ok(requests)
            },
        }
    }

    /// A connection has ended. Its number is forgotten only if it is still the
    /// VM's, so that a newer connection survives.
    pub fn guest_conn_closed(&mut self, vm_id: &VmId, conn: u64)
        requires
            old(self).wf(),
        ensures
            final(self).wf(),
            crate::vmm::firecracker::only_vms(*old(self), *final(self)),
            ({
                let vms = old(self).vms@;
                let i = crate::vmm::firecracker::vm_index(vms, vm_id.0@) as int;
                final(self).vms@ == if i < vms.len() && vms[i].guest_conn == Some(conn) {
                    vms.update(i, (FcVmEntry { guest_conn: None, ..vms[i] }))
                } else {
                    vms
                }
            }),
    {
        if let Some(i) = self.find(&vm_id.0) {
            let ours = match self.vms[i].guest_conn {
                Some(live) => live == conn,
                None => false,
            };
            if ours {
                let ghost before = self.vms@;
                self.vms[i].guest_conn = None;
                proof {
                    crate::vmm::firecracker::lemma_entry_updated(
                        before,
                        i as int,
                        self.vms@[i as int],
                    );
                    assert(self.vms@ =~= before.update(
                        i as int,
                        (FcVmEntry { guest_conn: None, ..before[i as int] }),
                    ));
                }
            }
        }
    }

    // -----------------------------------------------------------------------
    // Ports
    // -----------------------------------------------------------------------

    /// The exposed ports of a VM.
    pub fn list_exposed_ports(&self, vm_id: &VmId) -> (r: Result<&Vec<ExposedPort>, Error>)
        ensures
            ({
                let i = crate::vmm::firecracker::vm_index(self.vms@, vm_id.0@) as int;
                match r {
                    Ok(ports) => i < self.vms@.len() && *ports
                        == self.vms@[i].instance.vm_config.network_config.exposed_ports,
                    Err(Error::VmNotFound(id)) => i == self.vms@.len() && id@ == vm_id.0@,
                    Err(_) => false,
                }
            }),
    {
        match self.find(&vm_id.0) {
            None => Err(Error::VmNotFound(vm_id.0.clone())),
            Some(i) => Ok(&self.vms[i].instance.vm_config.network_config.exposed_ports),
        }
    }

    /// Exposes a port of a VM.
    pub fn add_exposed_port(&mut self, vm_id: &VmId, port: ExposedPort) -> (r: Result<(), Error>)
        requires
            old(self).wf(),
        ensures
            final(self).wf(),
            ({
                let vms = old(self).vms@;
                let i = crate::vmm::firecracker::vm_index(vms, vm_id.0@) as int;
                let ports = ports_of(vms[i]);
                match r {
                    Ok(()) => i < vms.len() && port.port != 0 && !crate::net::types::exposes(
                        ports,
                        port.port,
                    ) && ports_changed(*old(self), *final(self), i, ports.push(port)),
                    Err(Error::VmNotFound(id)) => i == vms.len() && id@ == vm_id.0@ && *final(self)
                        == *old(self),
                    Err(Error::InvalidPort(p)) => i < vms.len() && port.port == 0 && p == 0
                        && ports_changed(*old(self), *final(self), i, ports),
                    Err(Error::PortAlreadyExposed { vm_id: id, port: p }) => i < vms.len()
                        && port.port != 0 && crate::net::types::exposes(ports, port.port) && id@
                        == vm_id.0@ && p == port.port && ports_changed(
                        *old(self),
                        *final(self),
                        i,
                        ports,
                    ),
                    Err(_) => false,
                }
            }),
    {
        match self.find(&vm_id.0) {
            None => Err(Error::VmNotFound(vm_id.0.clone())),
            Some(i) => {
                let ghost before = self.vms@;
                let r = self.vms[i].instance.vm_config.network_config.add_exposed_port(vm_id, port);
                proof {
                    crate::vmm::firecracker::lemma_entry_updated(
                        before,
                        i as int,
                        self.vms@[i as int],
                    );
                    assert(self.vms@ =~= before.update(i as int, self.vms@[i as int]));
                }
                r
            },
        }
    }

    /// Takes an exposed port of a VM back.
    pub fn remove_exposed_port(&mut self, vm_id: &VmId, port: u16) -> (r: Result<(), Error>)
        requires
            old(self).wf(),
        ensures
            final(self).wf(),
            ({
                let vms = old(self).vms@;
                let i = crate::vmm::firecracker::vm_index(vms, vm_id.0@) as int;
                let ports = ports_of(vms[i]);
                match r {
                    Ok(()) => i < vms.len() && crate::net::types::exposes(ports, port)
                        && ports_changed(
                        *old(self),
                        *final(self),
                        i,
                        ports.remove(crate::net::types::port_index(ports, port) as int),
                    ),
                    Err(Error::VmNotFound(id)) => i == vms.len() && id@ == vm_id.0@ && *final(self)
                        == *old(self),
                    Err(Error::PortNotExposed { vm_id: id, port: p }) => i < vms.len()
                        && !crate::net::types::exposes(ports, port) && id@ == vm_id.0@ && p == port
                        && ports_changed(*old(self), *final(self), i, ports),
                    Err(_) => false,
                }
            }),
    {
        match self.find(&vm_id.0) {
            None => Err(Error::VmNotFound(vm_id.0.clone())),
            Some(i) => {
                let ghost before = self.vms@;
                let r = self.vms[i].instance.vm_config.network_config.remove_exposed_port(
                    vm_id,
                    port,
                );
                proof {
                    crate::vmm::firecracker::lemma_entry_updated(
                        before,
                        i as int,
                        self.vms@[i as int],
                    );
                    assert(self.vms@ =~= before.update(i as int, self.vms@[i as int]));
                }
                r
            },
        }
    }
}

/// Where to get a connection to a guest agent from.
#[derive(Debug)]
pub enum ConnNeed {
    /// The connection of this number is live.
    Live(u64),
    /// Connect to this socket.
    Connect { uds_path: String },
}

/// What is asked of a guest agent first.
pub open spec fn greets(requests: Seq<GuestRequest>, e: FcVmEntry) -> bool {
    &&& requests.len() >= 1
    &&& requests[0] is List
    &&& match e.instance.vm_config.auto_suspend {
        None => requests.len() == 1,
        Some(c) => requests.len() == 2 && requests[1] is ConfigureAutoSuspend && text::views(
            requests[1]->idle_check_cmd@,
        ) == text::views(c.idle_check_cmd@) && requests[1]->check_interval_secs
            == c.check_interval_secs,
    }
}

/// The exposed ports of a VM.
pub open spec fn ports_of(e: FcVmEntry) -> Seq<ExposedPort> {
    e.instance.vm_config.network_config.exposed_ports@
}

/// Whether the exposed ports of a VM are changed, and nothing else.
pub open spec fn ports_changed(
    before: FirecrackerVmm,
    after: FirecrackerVmm,
    i: int,
    ports: Seq<ExposedPort>,
) -> bool {
    let b = before.vms@[i];
    let a = after.vms@[i];
    let net = a.instance.vm_config.network_config;
    &&& crate::vmm::firecracker::only_vms(before, after)
    &&& after.vms@ == before.vms@.update(i, a)
    &&& ports_of(a) == ports
    &&& net.allow_internet == b.instance.vm_config.network_config.allow_internet
    &&& net.egress == b.instance.vm_config.network_config.egress
    &&& net.public_access == b.instance.vm_config.network_config.public_access
    &&& a == (FcVmEntry {
        instance: crate::vmm::vm::VmInstance {
            vm_config: crate::vmm::vm::VmConfig { network_config: net, ..b.instance.vm_config },
            ..b.instance
        },
        ..b
    })
}

// ---------------------------------------------------------------------------
// Laws
// ---------------------------------------------------------------------------

/// A workload that has ended is not revived by anything a guest agent reports.
pub proof fn law_events_keep_ended_workloads(
    workloads: Seq<Workload>,
    event: GuestEvent,
    now: u64,
    k: int,
)
    requires
        0 <= k < workloads.len(),
        !crate::vmm::workload::active(workloads[k].state),
    ensures
        after_event(workloads, event, now).len() == workloads.len(),
        after_event(workloads, event, now)[k] == workloads[k],
{
    if let GuestEvent::ListResult { workloads: infos } = event {
        lemma_table_keeps_ended(workloads, infos@, now, k);
    }
}

proof fn lemma_table_keeps_ended(
    workloads: Seq<Workload>,
    infos: Seq<GuestWorkloadInfo>,
    now: u64,
    k: int,
)
    requires
        0 <= k < workloads.len(),
        !crate::vmm::workload::active(workloads[k].state),
    ensures
        table_taken(workloads, infos, now).len() == workloads.len(),
        table_taken(workloads, infos, now)[k] == workloads[k],
    decreases infos.len(),
{
    if infos.len() > 0 {
        lemma_table_keeps_ended(workloads, infos.drop_last(), now, k);
    }
}

/// Whether two lists of workloads have the same names.
spec fn same_names(a: Seq<Workload>, b: Seq<Workload>) -> bool {
    a.len() == b.len() && forall|j: int|
        0 <= j < a.len() ==> (#[trigger] a[j]).workload_id.0@ == b[j].workload_id.0@
}

proof fn lemma_same_names_same_index(a: Seq<Workload>, b: Seq<Workload>, id: Seq<char>)
    requires
        same_names(a, b),
    ensures
        crate::vmm::firecracker::workload_index(a, id) == crate::vmm::firecracker::workload_index(
            b,
            id,
        ),
{
    crate::vmm::firecracker::lemma_workload_index(a, id);
    crate::vmm::firecracker::lemma_workload_index(b, id);
    let i = crate::vmm::firecracker::workload_index(a, id) as int;
    let j = crate::vmm::firecracker::workload_index(b, id) as int;
    if i < j {
        assert(a[i].workload_id.0@ == b[i].workload_id.0@);
        assert(!crate::vmm::firecracker::is_workload(b[i], id));
    }
    if j < i {
        assert(a[j].workload_id.0@ == b[j].workload_id.0@);
        assert(!crate::vmm::firecracker::is_workload(a[j], id));
    }
}

proof fn lemma_table_keeps_names(
    workloads: Seq<Workload>,
    infos: Seq<GuestWorkloadInfo>,
    now: u64,
)
    ensures
        same_names(workloads, table_taken(workloads, infos, now)),
    decreases infos.len(),
{
    if infos.len() > 0 {
        lemma_table_keeps_names(workloads, infos.drop_last(), now);
        let before = table_taken(workloads, infos.drop_last(), now);
        let after = table_taken(workloads, infos, now);
        let k = crate::vmm::firecracker::workload_index(before, infos.last().workload_id@) as int;
        assert forall|j: int| 0 <= j < workloads.len() implies (
        #[trigger] workloads[j]).workload_id.0@ == after[j].workload_id.0@ by {
            if j == k {
                assert(after[j].workload_id == before[j].workload_id);
            } else {
                assert(after[j] == before[j]);
            }
        }
    }
}

/// A reconnect makes up for exits that were missed: a workload that the
/// agent's table lists as exited is not active afterwards.
pub proof fn law_reconnect_catches_up_on_exits(
    workloads: Seq<Workload>,
    infos: Seq<GuestWorkloadInfo>,
    now: u64,
    m: int,
)
    requires
        0 <= m < infos.len(),
        infos[m].state@ == "exited"@,
        crate::vmm::firecracker::workload_index(workloads, infos[m].workload_id@)
            < workloads.len(),
    ensures
        ({
            let k = crate::vmm::firecracker::workload_index(workloads, infos[m].workload_id@) as int;
            !crate::vmm::workload::active(table_taken(workloads, infos, now)[k].state)
        }),
    decreases infos.len(),
{
    let id = infos[m].workload_id@;
    let k = crate::vmm::firecracker::workload_index(workloads, id) as int;
    let before = table_taken(workloads, infos.drop_last(), now);
    lemma_table_keeps_names(workloads, infos.drop_last(), now);
    if m == infos.len() - 1 {
        lemma_same_names_same_index(workloads, before, id);
        reveal_strlit("running");
        reveal_strlit("exited");
        assert("running"@.len() == 7);
        assert("exited"@.len() == 6);
    } else {
        assert(infos.drop_last()[m] == infos[m]);
        law_reconnect_catches_up_on_exits(workloads, infos.drop_last(), now, m);
        assert(info_taken(before, infos.last(), now)[k] == before[k]);
    }
}

} // verus!
