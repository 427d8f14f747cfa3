use vstd::prelude::*;

verus! {

/// How long after the first spawn a grab process failure still counts as a
/// startup failure, in milliseconds.
pub const STARTUP_WINDOW_MS: u64 = 5000;

/// What the monitor of a locked device does once the diagnostic stream of its
/// grab process has ended or reached its line cap.
#[derive(Debug, PartialEq, Eq)]
pub enum MonitorAction {
    /// The lock is being released: the monitor ends.
    Exit,
    /// The device could not be grabbed at startup: the whole program stops with
    /// the diagnostic text.
    Abort { stderr: String },
    /// A transient failure: start a fresh grab process for the same device and
    /// watch it.
    Respawn,
}

/// Whether `action` is the monitor's decision for the stop flag, the time
/// since the first spawn and the captured diagnostic text.
pub open spec fn decides(
    action: MonitorAction,
    stopping: bool,
    elapsed_ms: u64,
    stderr: Seq<char>,
) -> bool {
    match action {
        MonitorAction::Exit => stopping,
        MonitorAction::Abort { stderr: s } => !stopping && elapsed_ms < STARTUP_WINDOW_MS && s@
            == stderr,
        MonitorAction::Respawn => !stopping && elapsed_ms >= STARTUP_WINDOW_MS,
    }
}

/// Classifies the end of a grab process's diagnostic stream: a set stop flag
/// means the lock is being released; otherwise a failure inside the startup
/// window is fatal and a later one is retried with a fresh process.
pub fn monitor_decision(stopping: bool, elapsed_ms: u64, stderr: String) -> (r: MonitorAction)
    ensures
        decides(r, stopping, elapsed_ms, stderr@),
{
    if stopping {
        MonitorAction::Exit
    } else if elapsed_ms < STARTUP_WINDOW_MS {
        MonitorAction::Abort { stderr }
    } else {
        MonitorAction::Respawn
    }
}

/// Once a lock has been released its monitor never starts another grab
/// process: whatever the timing and diagnostics of each later wake-up, the
/// monitor's decision is to exit.
pub proof fn lemma_released_lock_stays_released(
    wakeups: Seq<(u64, Seq<char>)>,
    actions: Seq<MonitorAction>,
)
    requires
        actions.len() == wakeups.len(),
        forall|i: int|
            0 <= i < wakeups.len() ==> decides(#[trigger] actions[i], true, wakeups[i].0, wakeups[i].1),
    ensures
        forall|i: int| 0 <= i < actions.len() ==> #[trigger] actions[i] == MonitorAction::Exit,
{
    assert forall|i: int| 0 <= i < actions.len() implies #[trigger] actions[i] == MonitorAction::Exit by {
        assert(decides(actions[i], true, wakeups[i].0, wakeups[i].1));
    }
}

/// A failure inside the startup window aborts and the same failure after it
/// respawns: the two outcomes differ only by the time since the first spawn.
pub proof fn lemma_startup_boundary(early_ms: u64, late_ms: u64, stderr: Seq<char>, early: MonitorAction, late: MonitorAction)
    requires
        early_ms < STARTUP_WINDOW_MS,
        late_ms >= STARTUP_WINDOW_MS,
        decides(early, false, early_ms, stderr),
        decides(late, false, late_ms, stderr),
    ensures
        early is Abort,
        early->stderr@ == stderr,
        late == MonitorAction::Respawn,
{
}

} // verus!
