//! The supervisor that keeps the daemon running: it restarts the daemon
//! after a crash, and gives up after five crashes within ten seconds.
use vstd::prelude::*;

verus! {

/// How long a window of crashes lasts, in milliseconds.
pub const CRASH_WINDOW_MS: u64 = 10_000;

/// How many crashes within one window end supervision.
pub const CRASH_LIMIT: u64 = 5;

/// The crashes counted in the current window, and when it began
/// (milliseconds on a monotonic clock).
pub struct CrashWindow {
    crashes: u64,
    started_ms: u64,
}

pub struct CrashWindowView {
    pub crashes: nat,
    pub started_ms: nat,
}

impl View for CrashWindow {
    type V = CrashWindowView;

    closed spec fn view(&self) -> CrashWindowView {
        CrashWindowView { crashes: self.crashes as nat, started_ms: self.started_ms as nat }
    }
}

/// What the supervisor does after the daemon exits.
#[derive(PartialEq, Eq, Structural, Clone, Copy, Debug)]
pub enum SupervisorAction {
    /// The daemon exited cleanly: supervision ends with success.
    Stop,
    /// Too many crashes: supervision ends with failure.
    GiveUp,
    /// Start the daemon again after this many milliseconds.
    Restart(u64),
}

/// The supervisor's state and action after an exit at `now_ms`: a clean
/// exit stops it; a crash is counted, the count starting again at one
/// where the window is more than ten seconds old; the fifth crash gives up,
/// and otherwise the daemon restarts after half a second per crash.
pub open spec fn after_exit(w: CrashWindowView, clean: bool, now_ms: nat) -> (CrashWindowView, SupervisorAction) {
    if clean {
        (w, SupervisorAction::Stop)
    } else {
        let elapsed = if now_ms >= w.started_ms {
            now_ms - w.started_ms
        } else {
            0
        };
        let next = if elapsed > CRASH_WINDOW_MS {
            CrashWindowView { crashes: 1, started_ms: now_ms }
        } else {
            CrashWindowView { crashes: w.crashes + 1, started_ms: w.started_ms }
        };
        if next.crashes >= CRASH_LIMIT {
            (next, SupervisorAction::GiveUp)
        } else {
            (next, SupervisorAction::Restart((500 * next.crashes) as u64))
        }
    }
}

impl CrashWindow {
    /// A supervisor that has seen no crash yet, its window starting at `now_ms`.
    pub fn new(now_ms: u64) -> (w: CrashWindow)
        ensures
            w@ == (CrashWindowView { crashes: 0, started_ms: now_ms as nat }),
            w.wf(),
    {
        CrashWindow { crashes: 0, started_ms: now_ms }
    }

    /// The supervisor keeps watching only while fewer than five crashes fall
    /// in the window.
    pub open spec fn wf(&self) -> bool {
        self@.crashes < CRASH_LIMIT
    }

    /// The decision after the daemon exits, as `after_exit` states it.
    pub fn on_exit(&mut self, clean: bool, now_ms: u64) -> (a: SupervisorAction)
        requires
            old(self).wf(),
        ensures
            (final(self)@, a) == after_exit(old(self)@, clean, now_ms as nat),
            a matches SupervisorAction::Restart(_) ==> final(self).wf(),
    {
        if clean {
            return SupervisorAction::Stop;
        }
        let elapsed = if now_ms >= self.started_ms {
            now_ms - self.started_ms
        } else {
            0
        };
        if elapsed > CRASH_WINDOW_MS {
            self.crashes = 1;
            self.started_ms = now_ms;
        } else {
            self.crashes = self.crashes + 1;
        }
        if self.crashes >= CRASH_LIMIT {
            SupervisorAction::GiveUp
        } else {
            SupervisorAction::Restart(500 * self.crashes)
        }
    }
}

/// Five crashes within ten seconds end supervision: a crash within ten
/// seconds of the window's start raises the count by one, restarting the
/// daemon after half a second per crash until the fifth, which gives up; a
/// crash more than ten seconds after it starts a new window, and the daemon
/// restarts after half a second; a clean exit stops without counting.
pub proof fn lemma_crash_window(w: CrashWindowView, now_ms: nat)
    requires
        w.crashes < CRASH_LIMIT,
    ensures
        after_exit(w, true, now_ms) == (w, SupervisorAction::Stop),
        now_ms <= w.started_ms + CRASH_WINDOW_MS && w.crashes + 1 < CRASH_LIMIT ==> after_exit(
            w,
            false,
            now_ms,
        ) == (CrashWindowView { crashes: w.crashes + 1, ..w }, SupervisorAction::Restart(
            (500 * (w.crashes + 1)) as u64,
        )),
        now_ms <= w.started_ms + CRASH_WINDOW_MS && w.crashes + 1 == CRASH_LIMIT ==> after_exit(
            w,
            false,
            now_ms,
        ).1 == SupervisorAction::GiveUp,
        now_ms > w.started_ms + CRASH_WINDOW_MS ==> after_exit(w, false, now_ms) == (
            CrashWindowView { crashes: 1, started_ms: now_ms },
            SupervisorAction::Restart(500),
        ),
{
}

} // verus!
