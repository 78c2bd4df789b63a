//! KakaoTalk process lifecycle tracking.
//!
//! The watcher polls for the KakaoTalk process. A newly seen process counts
//! as running only once its main window exists; an exit, or a process id
//! that changed between two polls, notifies listeners that the previous
//! process is gone. The polling, the waiting for the window and the sleeping
//! are done by the caller; `ProcessWatcher` decides what each observation
//! means.
use vstd::prelude::*;
use crate::config::Config;

verus! {

/// The state of the KakaoTalk lifecycle tracker.
pub struct ProcessWatcher {
    poll_interval_ms: u64,
    running: bool,
    pid: Option<u32>,
}

/// What to do after one poll.
#[derive(Clone, Copy, Debug, PartialEq, Eq, Structural)]
pub struct PollStep {
    /// Notify the "KakaoTalk stopped" listener now.
    pub fire_stop: bool,
    /// Wait for the main window of this process, then report the outcome
    /// with `ProcessWatcher::window_wait_finished`.
    pub await_window: Option<u32>,
}

/// The step for an observation `pid_now` when the tracker believed
/// `running` with cached process `cached`.
pub open spec fn poll_step_spec(running: bool, cached: Option<u32>, pid_now: Option<u32>) -> PollStep {
    match (running, pid_now) {
        (false, None) => PollStep { fire_stop: false, await_window: None },
        (false, Some(p)) => PollStep { fire_stop: false, await_window: Some(p) },
        (true, None) => PollStep { fire_stop: true, await_window: None },
        (true, Some(p)) => if cached == Some(p) {
            PollStep { fire_stop: false, await_window: None }
        } else {
            PollStep { fire_stop: true, await_window: Some(p) }
        },
    }
}

impl ProcessWatcher {
    #[verifier::type_invariant]
    spec fn inv(self) -> bool {
        self.running == self.pid is Some
    }

    /// The polling interval in milliseconds.
    pub closed spec fn interval(self) -> u64 {
        self.poll_interval_ms
    }

    /// KakaoTalk is believed to be running (its main window was seen).
    pub closed spec fn is_running_spec(self) -> bool {
        self.running
    }

    /// The process id of the running KakaoTalk.
    pub closed spec fn pid_spec(self) -> Option<u32> {
        self.pid
    }

    /// The tracker believes KakaoTalk runs exactly when it has a process id.
    pub open spec fn wf(self) -> bool {
        self.is_running_spec() == self.pid_spec() is Some
    }

    /// A tracker polling every `poll_interval_ms` milliseconds that has not
    /// seen KakaoTalk yet. The startup delay is not used by the tracker.
    pub fn new(poll_interval_ms: u64, startup_delay_ms: u64) -> (w: ProcessWatcher)
        ensures
            w.interval() == poll_interval_ms,
            !w.is_running_spec(),
            w.pid_spec() is None,
            w.wf(),
    {
        ProcessWatcher { poll_interval_ms, running: false, pid: None }
    }

    /// A tracker with the configured polling interval and startup delay.
    pub fn from_config(cfg: &Config) -> (w: ProcessWatcher)
        ensures
            w.interval() == cfg.poll_interval_ms,
            !w.is_running_spec(),
            w.pid_spec() is None,
            w.wf(),
    {
        Self::new(cfg.poll_interval_ms, cfg.startup_delay_ms)
    }

    /// The polling interval in milliseconds.
    pub fn poll_interval_ms(&self) -> (ms: u64)
        ensures
            ms == self.interval(),
    {
        self.poll_interval_ms
    }

    /// Whether KakaoTalk is believed to be running.
    pub fn is_running(&self) -> (r: bool)
        ensures
            r == self.is_running_spec(),
    {
        self.running
    }

    /// The process id of the running KakaoTalk, if any.
    pub fn pid(&self) -> (p: Option<u32>)
        ensures
            p == self.pid_spec(),
    {
        self.pid
    }

    /// Takes in one poll result (`pid_now`: the KakaoTalk process found, if
    /// any). An exit after running clears the state and fires the stop
    /// listener; a new process is awaited; a process id that changed while
    /// running fires the stop listener and awaits the new process.
    pub fn observe(&mut self, pid_now: Option<u32>) -> (step: PollStep)
        ensures
            final(self).wf(),
            step == poll_step_spec(old(self).is_running_spec(), old(self).pid_spec(), pid_now),
            final(self).interval() == old(self).interval(),
            old(self).is_running_spec() && pid_now is None ==> !final(self).is_running_spec()
                && final(self).pid_spec() is None,
            !(old(self).is_running_spec() && pid_now is None) ==> final(self).is_running_spec()
                == old(self).is_running_spec() && final(self).pid_spec() == old(self).pid_spec(),
    {
        proof {
            use_type_invariant(&*self);
        }
        match (self.running, pid_now) {
            (false, None) => PollStep { fire_stop: false, await_window: None },
            (false, Some(p)) => PollStep { fire_stop: false, await_window: Some(p) },
            (true, None) => {
                *self = ProcessWatcher { poll_interval_ms: self.poll_interval_ms, running: false, pid: None };
                PollStep { fire_stop: true, await_window: None }
            },
            (true, Some(p)) => {
                if self.pid == Some(p) {
                    PollStep { fire_stop: false, await_window: None }
                } else {
                    PollStep { fire_stop: true, await_window: Some(p) }
                }
            },
        }
    }

    /// Reports whether the main window of awaited process `pid` appeared.
    /// When it did, KakaoTalk is running as `pid` and the start listener is to
    /// fire (the result is `true`); when it did not, a replaced process is
    /// forgotten, and a fresh one is looked at again on the next poll.
    pub fn window_wait_finished(&mut self, pid: u32, window_found: bool) -> (fire_start: bool)
        ensures
            final(self).wf(),
            fire_start == window_found,
            final(self).interval() == old(self).interval(),
            window_found ==> final(self).is_running_spec() && final(self).pid_spec() == Some(pid),
            !window_found && old(self).is_running_spec() ==> !final(self).is_running_spec()
                && final(self).pid_spec() is None,
            !window_found && !old(self).is_running_spec() ==> final(self).is_running_spec()
                == old(self).is_running_spec() && final(self).pid_spec() == old(self).pid_spec(),
    {
        proof {
            use_type_invariant(&*self);
        }
        if window_found {
            *self = ProcessWatcher { poll_interval_ms: self.poll_interval_ms, running: true, pid: Some(pid) };
            true
        } else {
            if self.running {
                *self = ProcessWatcher { poll_interval_ms: self.poll_interval_ms, running: false, pid: None };
            }
            false
        }
    }
}

/// How long to sleep next when waiting until `deadline_ms` in steps of at
/// most `step_ms`, at time `now_ms`: nothing once the deadline is reached.
pub open spec fn wait_slice_spec(now_ms: u64, deadline_ms: u64, step_ms: u64) -> Option<u64> {
    if now_ms >= deadline_ms {
        None
    } else if deadline_ms - now_ms < step_ms {
        Some((deadline_ms - now_ms) as u64)
    } else {
        Some(step_ms)
    }
}

/// The next sleep of a bounded wait: the time left until `deadline_ms`,
/// capped at `step_ms`, or `None` when the deadline has passed.
pub fn wait_slice(now_ms: u64, deadline_ms: u64, step_ms: u64) -> (r: Option<u64>)
    ensures
        r == wait_slice_spec(now_ms, deadline_ms, step_ms),
{
    if now_ms >= deadline_ms {
        None
    } else if deadline_ms - now_ms < step_ms {
        Some(deadline_ms - now_ms)
    } else {
        Some(step_ms)
    }
}

/// Seeing KakaoTalk exit while it runs always ends in the not-running state
/// with the stop listener fired, whatever the previous process was.
pub proof fn lemma_exit_clears(running_pid: u32)
    ensures
        poll_step_spec(true, Some(running_pid), None) == (PollStep {
            fire_stop: true,
            await_window: None,
        }),
{
}

/// A process id that changed between two polls fires the stop listener
/// before the new process is awaited; the same process id changes nothing.
pub proof fn lemma_restart_detected(old_pid: u32, new_pid: u32)
    ensures
        old_pid != new_pid ==> poll_step_spec(true, Some(old_pid), Some(new_pid)) == (PollStep {
            fire_stop: true,
            await_window: Some(new_pid),
        }),
        poll_step_spec(true, Some(old_pid), Some(old_pid)) == (PollStep {
            fire_stop: false,
            await_window: None,
        }),
{
}

/// While KakaoTalk is not believed running, a poll that finds no process
/// does nothing, and one that finds a process awaits that process's main
/// window without firing the stop listener.
pub proof fn lemma_fresh_process_awaited(cached: Option<u32>, pid: u32)
    ensures
        poll_step_spec(false, cached, None) == (PollStep { fire_stop: false, await_window: None }),
        poll_step_spec(false, cached, Some(pid)) == (PollStep {
            fire_stop: false,
            await_window: Some(pid),
        }),
{
}

/// The stop listener fires exactly when KakaoTalk was believed running and
/// the poll finds no process or another one; a window is awaited exactly
/// when a process is found that is not the one believed running.
pub proof fn lemma_poll_step_shape(running: bool, cached: Option<u32>, pid_now: Option<u32>)
    requires
        running == cached is Some,
    ensures
        poll_step_spec(running, cached, pid_now).fire_stop == (running && pid_now != cached),
        poll_step_spec(running, cached, pid_now).await_window == (if pid_now is Some && pid_now
            != cached {
            pid_now
        } else {
            None
        }),
{
}

/// No sleep of a bounded wait goes past its deadline or exceeds the step.
pub proof fn lemma_wait_slice_bounded(now_ms: u64, deadline_ms: u64, step_ms: u64)
    ensures
        wait_slice_spec(now_ms, deadline_ms, step_ms) matches Some(d) ==> d <= step_ms && now_ms + d
            <= deadline_ms,
        wait_slice_spec(now_ms, deadline_ms, step_ms) is None <==> now_ms >= deadline_ms,
{
}

} // verus!
