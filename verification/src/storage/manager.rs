//! Volumes over the life of their VMs: one volume and one worker per VM,
//! attached when the VM is created and detached when it is destroyed.
//!
//! A worker that dies is respawned against its parked device, a bounded number
//! of times and later each time; then the device stays dead and the guest sees
//! IO errors, as with a dead disk. Removing a VM's entry is what tells its
//! monitor not to respawn.

use vstd::prelude::*;

use crate::error::Error;
use crate::storage::worker::spawn_args;
use crate::text;
use crate::vmm::vm::VmId;

verus! {

/// How many queues a worker serves.
pub const WORKER_QUEUES: u16 = 8;

/// How deep each queue is.
pub const WORKER_DEPTH: u16 = 64;

/// The device id that lets the kernel pick one.
pub const AUTO_DEVICE: i32 = -1;

/// How many times a worker is respawned.
pub const MAX_RESPAWNS: u32 = 3;

/// The worker of one VM's volume.
#[derive(Debug)]
pub struct WorkerEntry {
    pub vm_id: String,
    pub dev_id: i32,
    pub pid: u32,
    pub volume_dir: String,
    pub respawns: u32,
}

/// The workers, by VM.
#[derive(Debug)]
pub struct StorageManager {
    pub storage_root: String,
    pub workers: Vec<WorkerEntry>,
}

/// Whether an entry is of the given VM.
pub open spec fn is_of(e: WorkerEntry, vm_id: Seq<char>) -> bool {
    e.vm_id@ == vm_id
}

/// Where the entry of a VM stands; the number of entries if it has none.
pub open spec fn entry_index(workers: Seq<WorkerEntry>, vm_id: Seq<char>) -> nat
    decreases workers.len(),
{
    if workers.len() == 0 || is_of(workers[0], vm_id) {
        0
    } else {
        1 + entry_index(workers.drop_first(), vm_id)
    }
}

/// `entry_index` is where the VM's entry stands first.
pub proof fn lemma_entry_index(workers: Seq<WorkerEntry>, vm_id: Seq<char>)
    ensures
        entry_index(workers, vm_id) <= workers.len(),
        entry_index(workers, vm_id) < workers.len() ==> is_of(
            workers[entry_index(workers, vm_id) as int],
            vm_id,
        ),
        forall|i: int|
            0 <= i < entry_index(workers, vm_id) ==> !is_of(#[trigger] workers[i], vm_id),
    decreases workers.len(),
{
    if workers.len() > 0 && !is_of(workers[0], vm_id) {
        lemma_entry_index(workers.drop_first(), vm_id);
        assert forall|i: int| 0 <= i < entry_index(workers, vm_id) implies !is_of(
            #[trigger] workers[i],
            vm_id,
        ) by {
            if i > 0 {
                assert(!is_of(workers.drop_first()[i - 1], vm_id));
            }
        }
    }
}

/// Where a VM's volume is.
pub open spec fn volume_path(root: Seq<char>, project_id: u64, vm_id: Seq<char>) -> Seq<char> {
    text::path_joined(
        text::path_joined(root, "proj-"@ + text::decimal(project_id as nat)),
        vm_id,
    )
}

/// What a monitor does about a worker that has exited.
pub enum MonitorStep {
    /// The volume was detached: the exit was expected.
    Done,
    /// The worker was respawned too often: the device stays dead.
    GiveUp,
    /// Wait, then respawn the worker with the given arguments, to recover the
    /// device.
    Respawn { delay_secs: u64, dev_id: i32, args: Vec<String> },
}

/// What to do about a volume whose worker came up.
pub enum AttachStep {
    /// The device is ready.
    Attached,
    /// Formatting failed: stop the worker, remove the volume's directory, and
    /// report the failure.
    Undo(Error),
    /// The worker is gone already: report it.
    Failed(Error),
}

impl StorageManager {
    /// A manager without volumes.
    pub fn new(storage_root: &str) -> (m: StorageManager)
        ensures
            m.storage_root@ == storage_root@,
            m.workers@.len() == 0,
    {
        StorageManager { storage_root: storage_root.to_owned(), workers: Vec::new() }
    }

    /// Whether no VM has two entries.
    pub open spec fn wf(self) -> bool {
        forall|i: int, j: int|
            0 <= i < j < self.workers@.len() ==> (#[trigger] self.workers@[i]).vm_id@ != (
            #[trigger] self.workers@[j]).vm_id@
    }

    /// Where a VM's entry stands.
    fn find(&self, vm_id: &str) -> (at: Option<usize>)
        ensures
            match at {
                Some(i) => i < self.workers@.len() && i == entry_index(self.workers@, vm_id@),
                None => entry_index(self.workers@, vm_id@) == self.workers@.len(),
            },
    {
        let mut i: usize = 0;
        proof {
            assert(self.workers@.skip(0) =~= self.workers@);
        }
        while i < self.workers.len()
            invariant
                i <= self.workers@.len(),
                entry_index(self.workers@, vm_id@) == i + entry_index(
                    self.workers@.skip(i as int),
                    vm_id@,
                ),
            decreases self.workers@.len() - i,
        {
            proof {
                assert(self.workers@.skip(i as int)[0] == self.workers@[i as int]);
                assert(self.workers@.skip(i as int).drop_first() =~= self.workers@.skip(
                    i as int + 1,
                ));
            }
            if text::str_eq(&self.workers[i].vm_id, vm_id) {
                return Some(i);
            }
            i += 1;
        }
        None
    }

    /// Begins attaching a VM's volume: where it is, and the arguments to spawn
    /// its worker with. `root_is_dir` says whether the storage root is there.
    pub fn attach(
        &self,
        vm_id: &VmId,
        project_id: u64,
        size_mb: u32,
        chunk_kb: Option<u32>,
        root_is_dir: bool,
    ) -> (r: Result<(String, Vec<String>), Error>)
        ensures
            match r {
                Ok((dir, args)) => root_is_dir && dir@ == volume_path(
                    self.storage_root@,
                    project_id,
                    vm_id.0@,
                ) && crate::storage::worker::worker_args(
                    dir@,
                    Some(size_mb as u64),
                    chunk_kb,
                    false,
                    AUTO_DEVICE,
                    WORKER_QUEUES,
                    WORKER_DEPTH,
                ) == Some(text::views(args@)),
                Err(Error::Storage(m)) => !root_is_dir && m@ == "storage root "@
                    + self.storage_root@ + " is not a directory (S3 Files not mounted?)"@,
                Err(_) => false,
            },
    {
        if !root_is_dir {
            return Err(
                Error::Storage(
                    text::cat3(
                        "storage root ",
                        &self.storage_root,
                        " is not a directory (S3 Files not mounted?)",
                    ),
                ),
            );
        }
        let project = text::cat2("proj-", &text::decimal_string(project_id));
        let dir = text::path_join(&text::path_join(&self.storage_root, &project), &vm_id.0);
        match spawn_args(
            &dir,
            Some(size_mb as u64),
            chunk_kb,
            false,
            AUTO_DEVICE,
            WORKER_QUEUES,
            WORKER_DEPTH,
        ) {
            Ok(args) => Ok((dir, args)),
            Err(e) => Err(e),
        }
    }

    /// Finishes attaching once the worker is up and a fresh volume was
    /// formatted. `formatted` is how formatting ended (a volume that was there
    /// before is not formatted), `pid` the worker's process if it still runs.
    pub fn attached(
        &mut self,
        vm_id: &VmId,
        dev_id: i32,
        volume_dir: String,
        formatted: Option<Result<(), Error>>,
        pid: Option<u32>,
    ) -> (step: AttachStep)
        requires
            old(self).wf(),
        ensures
            final(self).wf(),
            final(self).storage_root == old(self).storage_root,
            match (formatted, pid) {
                (Some(Err(e)), _) => step == AttachStep::Undo(e) && final(self).workers@ == old(
                    self,
                ).workers@,
                (_, None) => step matches AttachStep::Failed(Error::Storage(m)) && m@
                    == "ublk worker exited during attach"@ && final(self).workers@ == old(
                    self,
                ).workers@,
                (_, Some(p)) => step is Attached && final(self).workers@.len() > 0 && ({
                    let k = entry_index(old(self).workers@, vm_id.0@) as int;
                    let e = final(self).workers@.last();
                    &&& e.vm_id@ == vm_id.0@
                    &&& e.dev_id == dev_id
                    &&& e.pid == p
                    &&& e.volume_dir == volume_dir
                    &&& e.respawns == 0
                    &&& final(self).workers@.drop_last() == if k < old(self).workers@.len() {
                        old(self).workers@.remove(k)
                    } else {
                        old(self).workers@
                    }
                }),
            },
    {
        if let Some(Err(e)) = formatted {
            return AttachStep::Undo(e);
        }
        let pid: u32 = match pid {
            Some(p) => p,
            None => {
                return AttachStep::Failed(
                    Error::Storage("ublk worker exited during attach".to_owned()),
                );
            },
        };
        let _replaced = self.detach(vm_id);
        let ghost rest = self.workers@;
        proof {
            lemma_entry_index(rest, vm_id.0@);
        }
        self.workers.push(
            WorkerEntry { vm_id: vm_id.0.clone(), dev_id, pid, volume_dir, respawns: 0 },
        );
        proof {
            assert(self.workers@.drop_last() =~= rest);
            assert forall|i: int, j: int| 0 <= i < j < self.workers@.len() implies (
            #[trigger] self.workers@[i]).vm_id@ != (#[trigger] self.workers@[j]).vm_id@ by {
                assert(self.workers@[i] == rest[i]);
                if j < rest.len() {
                    assert(self.workers@[j] == rest[j]);
                } else {
                    assert(!is_of(rest[i], vm_id.0@));
                }
            }
        }
        AttachStep::Attached
    }

    /// Takes a VM's entry out, if it has one: the worker to kill, the device
    /// to delete and the directory to remove. Its monitor will not respawn.
    pub fn detach(&mut self, vm_id: &VmId) -> (e: Option<WorkerEntry>)
        requires
            old(self).wf(),
        ensures
            final(self).wf(),
            final(self).storage_root == old(self).storage_root,
            entry_index(final(self).workers@, vm_id.0@) == final(self).workers@.len(),
            ({
                let k = entry_index(old(self).workers@, vm_id.0@) as int;
                match e {
                    Some(entry) => k < old(self).workers@.len() && entry == old(self).workers@[k]
                        && final(self).workers@ == old(self).workers@.remove(k),
                    None => k == old(self).workers@.len() && final(self).workers@ == old(
                        self,
                    ).workers@,
                }
            }),
    {
        proof {
            lemma_entry_index(self.workers@, vm_id.0@);
        }
        match self.find(&vm_id.0) {
            None => None,
            Some(k) => {
                let ghost before = self.workers@;
                let entry = self.workers.remove(k);
                proof {
                    let after = self.workers@;
                    assert forall|i: int| 0 <= i < after.len() implies !is_of(
                        #[trigger] after[i],
                        vm_id.0@,
                    ) && after[i] == before[if i < k { i } else { i + 1 }] by {
                        if i >= k {
                            assert(before[k as int].vm_id@ != before[i + 1].vm_id@);
                        }
                    }
                    lemma_entry_index(after, vm_id.0@);
                    assert forall|i: int, j: int| 0 <= i < j < after.len() implies (
                    #[trigger] after[i]).vm_id@ != (#[trigger] after[j]).vm_id@ by {
                        assert(after[i] == before[if i < k { i } else { i + 1 }]);
                        assert(after[j] == before[if j < k { j } else { j + 1 }]);
                    }
                }
                Some(entry)
            },
        }
    }

    /// What to do about a VM's worker that has exited. A respawned worker
    /// always recovers the parked device of the same volume.
    pub fn on_worker_exit(&self, vm_id: &VmId) -> (step: MonitorStep)
        ensures
            ({
                let k = entry_index(self.workers@, vm_id.0@) as int;
                if k >= self.workers@.len() {
                    step is Done
                } else {
                    let e = self.workers@[k];
                    if e.respawns >= MAX_RESPAWNS {
                        step is GiveUp
                    } else {
                        step matches MonitorStep::Respawn { delay_secs, dev_id, args }
                            && delay_secs == vstd::arithmetic::power2::pow2(e.respawns as nat)
                            && delay_secs <= 4 && dev_id == e.dev_id
                            && crate::storage::worker::worker_args(
                            e.volume_dir@,
                            None,
                            None,
                            true,
                            e.dev_id,
                            WORKER_QUEUES,
                            WORKER_DEPTH,
                        ) == Some(text::views(args@))
                    }
                }
            }),
    {
        match self.find(&vm_id.0) {
            None => MonitorStep::Done,
            Some(k) => {
                let e = &self.workers[k];
                if e.respawns >= MAX_RESPAWNS {
                    MonitorStep::GiveUp
                } else {
                    proof {
                        vstd::arithmetic::power2::lemma2_to64();
                    }
                    let delay_secs: u64 = if e.respawns == 0 {
                        1
                    } else if e.respawns == 1 {
                        2
                    } else {
                        4
                    };
                    match spawn_args(
                        &e.volume_dir,
                        None,
                        None,
                        true,
                        e.dev_id,
                        WORKER_QUEUES,
                        WORKER_DEPTH,
                    ) {
                        Ok(args) => MonitorStep::Respawn { delay_secs, dev_id: e.dev_id, args },
                        // A recovery needs no size, so there are always arguments.
                        Err(_) => MonitorStep::GiveUp,
                    }
                }
            },
        }
    }

    /// Takes note of how respawning a VM's worker ended: `pid` is the new
    /// process. Returns whether the volume is still attached; if it is not, a
    /// worker that came up must be stopped again.
    pub fn on_respawned(&mut self, vm_id: &VmId, pid: Option<u32>) -> (attached: bool)
        requires
            old(self).wf(),
        ensures
            final(self).wf(),
            final(self).storage_root == old(self).storage_root,
            ({
                let k = entry_index(old(self).workers@, vm_id.0@) as int;
                &&& attached == (k < old(self).workers@.len())
                &&& !attached ==> final(self).workers@ == old(self).workers@
                &&& attached ==> final(self).workers@ == old(self).workers@.update(
                    k,
                    respawned(old(self).workers@[k], pid),
                )
            }),
    {
        match self.find(&vm_id.0) {
            None => false,
            Some(k) => {
                let ghost before = self.workers@;
                if let Some(p) = pid {
                    self.workers[k].pid = p;
                }
                self.workers[k].respawns = self.workers[k].respawns.saturating_add(1);
                proof {
                    assert(self.workers@ =~= before.update(
                        k as int,
                        respawned(before[k as int], pid),
                    ));
                }
                true
            },
        }
    }

    /// Takes note that respawning a VM's worker failed. Returns whether to try
    /// again.
    pub fn on_respawn_failed(&mut self, vm_id: &VmId) -> (again: bool)
        requires
            old(self).wf(),
        ensures
            final(self).wf(),
            final(self).storage_root == old(self).storage_root,
            ({
                let k = entry_index(old(self).workers@, vm_id.0@) as int;
                if k < old(self).workers@.len() {
                    let e = respawned(old(self).workers@[k], None);
                    &&& final(self).workers@ == old(self).workers@.update(k, e)
                    &&& again == (e.respawns < MAX_RESPAWNS)
                } else {
                    !again && final(self).workers@ == old(self).workers@
                }
            }),
    {
        let attached = self.on_respawned(vm_id, None);
        if !attached {
            return false;
        }
        proof {
            lemma_entry_index(old(self).workers@, vm_id.0@);
            lemma_entry_index(self.workers@, vm_id.0@);
            let k = entry_index(old(self).workers@, vm_id.0@) as int;
            let at = entry_index(self.workers@, vm_id.0@) as int;
            assert(is_of(self.workers@[k], vm_id.0@));
            if at < k {
                assert(self.workers@[at] == old(self).workers@[at]);
            }
            assert(at == k);
        }
        match self.find(&vm_id.0) {
            Some(k) => self.workers[k].respawns < MAX_RESPAWNS,
            None => false,
        }
    }
}

/// An entry after one more attempt to respawn its worker.
pub open spec fn respawned(e: WorkerEntry, pid: Option<u32>) -> WorkerEntry {
    WorkerEntry {
        pid: match pid {
            Some(p) => p,
            None => e.pid,
        },
        respawns: if e.respawns == u32::MAX {
            u32::MAX
        } else {
            (e.respawns + 1) as u32
        },
        ..e
    }
}

/// A worker is respawned at most so often: every attempt counts, whether it
/// succeeds or not, and with the last one spent the monitor gives up.
pub proof fn law_respawns_are_bounded(e: WorkerEntry, pids: Seq<Option<u32>>)
    requires
        e.respawns == 0,
    ensures
        respawned_all(e, pids).respawns >= MAX_RESPAWNS <==> pids.len() >= MAX_RESPAWNS,
{
    lemma_respawned_all(e, pids);
}

/// An entry after the given attempts to respawn its worker.
pub open spec fn respawned_all(e: WorkerEntry, pids: Seq<Option<u32>>) -> WorkerEntry
    decreases pids.len(),
{
    if pids.len() == 0 {
        e
    } else {
        respawned(respawned_all(e, pids.drop_last()), pids.last())
    }
}

proof fn lemma_respawned_all(e: WorkerEntry, pids: Seq<Option<u32>>)
    requires
        e.respawns == 0,
    ensures
        respawned_all(e, pids).respawns == if pids.len() < u32::MAX {
            pids.len() as int
        } else {
            u32::MAX as int
        },
    decreases pids.len(),
{
    if pids.len() > 0 {
        lemma_respawned_all(e, pids.drop_last());
    }
}

/// The directories under the storage root that hold volumes of projects. At
/// startup their VMs are gone; they are data and stay.
pub fn stale_volumes(names: &[String]) -> (stale: Vec<String>)
    ensures
        text::views(stale@) == project_dirs(text::views(names@)),
{
    let ghost nv = text::views(names@);
    let mut stale: Vec<String> = Vec::new();
    let mut i: usize = 0;
    proof {
        assert(nv.take(0) =~= seq![]);
        assert(text::views(stale@) =~= seq![]);
    }
    while i < names.len()
        invariant
            nv == text::views(names@),
            i <= names@.len(),
            text::views(stale@) == project_dirs(nv.take(i as int)),
        decreases names@.len() - i,
    {
        proof {
            assert(nv.take(i as int + 1).drop_last() =~= nv.take(i as int));
            assert(nv.take(i as int + 1).last() == names@[i as int]@);
        }
        if text::starts_with(&names[i], "proj-") {
            let ghost before = stale@;
            stale.push(names[i].clone());
            proof {
                assert(text::views(stale@) =~= text::views(before).push(names@[i as int]@));
            }
        }
        i += 1;
    }
    proof {
        assert(nv.take(i as int) =~= nv);
    }
    stale
}

/// The names that project directories have.
pub open spec fn project_dirs(names: Seq<Seq<char>>) -> Seq<Seq<char>>
    decreases names.len(),
{
    if names.len() == 0 {
        seq![]
    } else if text::has_prefix(names.last(), "proj-"@) {
        project_dirs(names.drop_last()).push(names.last())
    } else {
        project_dirs(names.drop_last())
    }
}

/// How long formatting may take, in seconds.
pub const FORMAT_WAIT_SECS: u64 = 180;

/// How formatting a volume ended.
#[derive(Debug)]
pub enum FormatEnd {
    /// It did not, within [`FORMAT_WAIT_SECS`].
    TimedOut,
    /// The command could not be run, with the reason.
    NotRun(String),
    /// The command exited, with its status in words.
    Exited { success: bool, status: String },
}

/// What formatting the device at `dev_path` comes to.
pub fn format_outcome(dev_path: &str, end: FormatEnd) -> (r: Result<(), Error>)
    ensures
        match end {
            FormatEnd::TimedOut => r matches Err(Error::Storage(m)) && m@ == "mkfs.ext4 "@
                + dev_path@ + " timed out"@,
            FormatEnd::NotRun(why) => r matches Err(Error::Storage(m)) && m@
                == "spawn mkfs.ext4: "@ + why@,
            FormatEnd::Exited { success, status } => if success {
                r is Ok
            } else {
                r matches Err(Error::Storage(m)) && m@ == "mkfs.ext4 "@ + dev_path@
                    + " failed: "@ + status@
            },
        },
{
    match end {
        FormatEnd::TimedOut => Err(
            Error::Storage(text::cat3("mkfs.ext4 ", dev_path, " timed out")),
        ),
        FormatEnd::NotRun(why) => Err(Error::Storage(text::cat2("spawn mkfs.ext4: ", &why))),
        FormatEnd::Exited { success, status } => if success {
            Ok(())
        } else {
            Err(Error::Storage(text::cat4("mkfs.ext4 ", dev_path, " failed: ", &status)))
        },
    }
}

/// The command that formats a fresh volume, with a label that the guest's
/// mount unit refers to.
pub fn mkfs_ext4(dev_path: &str) -> (argv: Vec<String>)
    ensures
        text::views(argv@) == seq![
            "mkfs.ext4"@,
            "-F"@,
            "-q"@,
            "-m"@,
            "0"@,
            "-L"@,
            "tikovm-data"@,
            dev_path@,
        ],
{
    let argv = text::owned(&["mkfs.ext4", "-F", "-q", "-m", "0", "-L", "tikovm-data", dev_path]);
    proof {
        assert(text::views(argv@) =~= seq![
            "mkfs.ext4"@,
            "-F"@,
            "-q"@,
            "-m"@,
            "0"@,
            "-L"@,
            "tikovm-data"@,
            dev_path@,
        ]);
    }
    argv
}

} // verus!
