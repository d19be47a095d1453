//! The idle detector: runs a command every so often and takes an exit status
//! of 0 as "idle".
//!
//! Anything else counts as "not idle": another status, a command that cannot
//! be started, one that hangs. The host decides for itself whether to suspend,
//! so reporting idle again and again does no harm.

use vstd::prelude::*;

verus! {

/// How long a check may run before it is killed, in seconds.
pub const CHECK_TIMEOUT_SECS: u64 = 30;

/// How often a detector that is off looks whether it was switched on, in
/// seconds.
pub const DISABLED_POLL_SECS: u64 = 1;

/// How often a running check is looked at, in milliseconds.
pub const WAIT_POLL_MS: u64 = 100;

/// What a detector runs, and how often.
#[derive(Debug)]
pub struct IdleCheckConfig {
    pub cmd: Vec<String>,
    pub interval_secs: u64,
}

/// The idle detector.
#[derive(Debug)]
pub struct IdleMonitor {
    /// None while it is off.
    pub config: Option<IdleCheckConfig>,
    /// Whether its loop was started.
    pub started: bool,
}

/// What the detector's loop does next.
#[derive(Debug)]
pub enum MonitorStep<'a> {
    /// Wait this long, then look again.
    Sleep { secs: u64 },
    /// Wait this long, then run the check.
    Check { after_secs: u64, cmd: &'a Vec<String> },
}

/// How a check went.
#[derive(Debug, Clone, Copy, PartialEq, Eq, Structural)]
pub enum CheckOutcome {
    SpawnFailed,
    Exited { success: bool },
    /// It hung and was killed, or could not be waited for.
    NoStatus,
}

/// Whether a check says that the guest is idle.
pub fn is_idle(outcome: CheckOutcome) -> (idle: bool)
    ensures
        idle == (outcome == CheckOutcome::Exited { success: true }),
{
    match outcome {
        CheckOutcome::Exited { success } => success,
        CheckOutcome::SpawnFailed => false,
        CheckOutcome::NoStatus => false,
    }
}

/// What looking at a running check gave.
#[derive(Debug, Clone, Copy, PartialEq, Eq, Structural)]
pub enum WaitEvent {
    Exited { success: bool },
    Running,
    Failed,
}

/// What to do about a running check.
#[derive(Debug, Clone, Copy, PartialEq, Eq, Structural)]
pub enum WaitStep {
    Done(CheckOutcome),
    /// Kill it and reap it; it gave no status.
    Kill,
    /// Look again after [`WAIT_POLL_MS`].
    Poll,
}

/// What to do about a running check: only one that runs past the deadline is
/// killed.
pub fn wait_with_timeout(event: WaitEvent, past_deadline: bool) -> (step: WaitStep)
    ensures
        step == match event {
            WaitEvent::Exited { success } => WaitStep::Done(CheckOutcome::Exited { success }),
            WaitEvent::Failed => WaitStep::Done(CheckOutcome::NoStatus),
            WaitEvent::Running => if past_deadline {
                WaitStep::Kill
            } else {
                WaitStep::Poll
            },
        },
{
    match event {
        WaitEvent::Exited { success } => WaitStep::Done(CheckOutcome::Exited { success }),
        WaitEvent::Failed => WaitStep::Done(CheckOutcome::NoStatus),
        WaitEvent::Running => if past_deadline {
            WaitStep::Kill
        } else {
            WaitStep::Poll
        },
    }
}

impl IdleMonitor {
    /// Whether a detector that is on has something to run, and a loop.
    pub open spec fn wf(self) -> bool {
        self.config is Some ==> self.started && self.config->0.cmd@.len() > 0
            && self.config->0.interval_secs >= 1
    }

    /// A detector that is off.
    pub fn new() -> (m: IdleMonitor)
        ensures
            m.wf(),
            m.config is None,
            !m.started,
    {
        IdleMonitor { config: None, started: false }
    }

    /// Switches the detector on, or off if the command is empty. Tells whether
    /// its loop has to be started: once, when the first command arrives.
    pub fn configure(&mut self, cmd: Vec<String>, interval_secs: u64) -> (start_loop: bool)
        requires
            old(self).wf(),
        ensures
            final(self).wf(),
            start_loop == (cmd@.len() > 0 && !old(self).started),
            final(self).started == (old(self).started || cmd@.len() > 0),
            if cmd@.len() == 0 {
                final(self).config is None
            } else {
                final(self).config == Some(
                    (IdleCheckConfig {
                        cmd,
                        interval_secs: if interval_secs < 1 {
                            1
                        } else {
                            interval_secs
                        },
                    }),
                )
            },
    {
        if cmd.len() == 0 {
            self.config = None;
            return false;
        }
        let interval_secs: u64 = if interval_secs < 1 {
            1
        } else {
            interval_secs
        };
        self.config = Some(IdleCheckConfig { cmd, interval_secs });
        let start_loop = !self.started;
        self.started = true;
        start_loop
    }

    /// What the detector's loop does next. It asks anew each time, so that a
    /// new configuration takes effect without a restart.
    pub fn next_step(&self) -> (step: MonitorStep<'_>)
        ensures
            match self.config {
                None => step == (MonitorStep::Sleep { secs: DISABLED_POLL_SECS }),
                Some(c) => step == (MonitorStep::Check { after_secs: c.interval_secs, cmd: &c.cmd }),
            },
    {
        match &self.config {
            None => MonitorStep::Sleep { secs: DISABLED_POLL_SECS },
            Some(c) => MonitorStep::Check { after_secs: c.interval_secs, cmd: &c.cmd },
        }
    }
}

} // verus!
