use vstd::prelude::*;

verus! {

/// The three fixed durations of a cycle, in milliseconds.
#[derive(Clone, Copy, Debug, PartialEq, Eq, Structural)]
pub struct Timing {
    /// From the first activity to the start of the break.
    pub work_ms: u64,
    /// The warning given before the devices are locked; part of the work time.
    pub grace_ms: u64,
    /// How long the devices stay locked.
    pub break_ms: u64,
}

impl Timing {
    /// The grace warning fits inside the work time.
    pub open spec fn wf(&self) -> bool {
        self.grace_ms <= self.work_ms
    }
}

/// Where the scheduler stands in the work/break cycle.
#[derive(Clone, Copy, Debug, PartialEq, Eq, Structural)]
pub enum Phase {
    /// Not started yet.
    Idle,
    /// Waiting for activity that starts the work timer.
    WaitingForFirstInput,
    /// The work timer runs; a break-skip may still arrive.
    WorkTimer,
    /// The break was skipped; waiting for the next activity burst.
    BreakSkipped,
    /// The lock is announced and comes after the grace period.
    GraceWarning,
    /// The devices are being locked.
    Locking,
    /// The devices are locked for the break.
    Locked,
    /// A collaborator failed; the scheduler stops for good.
    Halted,
}

/// What the caller observed as the outcome of the last command.
#[derive(Clone, Copy, Debug, PartialEq, Eq, Structural)]
pub enum Event {
    /// The loop starts.
    Begin,
    /// A non-blocking poll of the activity channel took a queued signal.
    InputQueued,
    /// A non-blocking poll of the activity channel found nothing.
    InputQueueEmpty,
    /// A blocking receive on the activity channel returned a signal.
    InputArrived,
    /// The activity channel is disconnected.
    InputLost,
    /// A break-skip signal arrived while waiting for the work time.
    SkipArrived,
    /// The work time elapsed with no break-skip signal.
    WorkElapsed,
    /// The break-skip channel is disconnected.
    SkipLost,
    /// The grace period is over.
    GraceElapsed,
    /// Every configured device is locked.
    DevicesLocked,
    /// A device could not be locked.
    LockFailed,
    /// The break is over.
    BreakElapsed,
}

/// A message for the users.
#[derive(Clone, Copy, Debug, PartialEq, Eq, Structural)]
pub enum Notice {
    WaitingForInput,
    /// The work timer starts, for this many milliseconds.
    WorkStarted(u64),
    /// The break is skipped.
    NoBreakNeeded,
    /// The devices are locked in this many milliseconds.
    LockingSoon(u64),
    /// The break starts, for this many milliseconds.
    BreakStarted(u64),
}

/// What the caller does next, in the order given.
#[derive(Clone, Copy, Debug, PartialEq, Eq, Structural)]
pub enum Command {
    Notify(Notice),
    /// Take a queued activity signal without blocking.
    PollInput,
    /// Block until an activity signal arrives.
    AwaitInput,
    /// Tell the inactivity watcher that work has started.
    StartWork,
    /// Wait this many milliseconds for a break-skip signal.
    AwaitSkip(u64),
    /// Sleep through the grace period, this many milliseconds.
    SleepGrace(u64),
    /// Sleep through the break, this many milliseconds.
    SleepBreak(u64),
    /// Lock every configured device.
    LockDevices,
    /// Release every held lock.
    UnlockDevices,
    /// Clear the flag by which the inactivity watcher sends one skip per cycle.
    ClearSkipFlag,
    /// Stop the program: a collaborator has failed.
    Halt,
}

/// The step of a wait for new activity that an event calls for.
#[derive(Clone, Copy, Debug, PartialEq, Eq, Structural)]
pub enum InputWait {
    /// Stale signals are still queued: poll again.
    Drain,
    /// The queue is drained: block for a fresh signal.
    Block,
    /// A fresh signal arrived: the wait is over.
    Arrived,
    /// The activity source is gone.
    Lost,
    /// The event does not belong to a wait for activity.
    Unrelated,
}

pub open spec fn input_wait_spec(e: Event) -> InputWait {
    match e {
        Event::InputQueued => InputWait::Drain,
        Event::InputQueueEmpty => InputWait::Block,
        Event::InputArrived => InputWait::Arrived,
        Event::InputLost => InputWait::Lost,
        _ => InputWait::Unrelated,
    }
}

/// Waits for activity that is new: signals queued before the wait are drained
/// first, so that a stale signal cannot end it at once.
pub fn block_on_new_input(e: Event) -> (r: InputWait)
    ensures
        r == input_wait_spec(e),
{
    match e {
        Event::InputQueued => InputWait::Drain,
        Event::InputQueueEmpty => InputWait::Block,
        Event::InputArrived => InputWait::Arrived,
        Event::InputLost => InputWait::Lost,
        _ => InputWait::Unrelated,
    }
}

/// The commands that start a wait for new activity.
pub open spec fn announce_wait() -> Seq<Command> {
    seq![Command::Notify(Notice::WaitingForInput), Command::PollInput]
}

/// The phase and commands of a wait for activity in `waiting`, after `e`;
/// `arrived` is what a fresh signal leads to.
pub open spec fn waiting_next(waiting: Phase, e: Event, arrived: (Phase, Seq<Command>)) -> (
    Phase,
    Seq<Command>,
) {
    match input_wait_spec(e) {
        InputWait::Drain => (waiting, seq![Command::PollInput]),
        InputWait::Block => (waiting, seq![Command::AwaitInput]),
        InputWait::Arrived => arrived,
        InputWait::Lost => (Phase::Halted, seq![Command::Halt]),
        InputWait::Unrelated => (waiting, Seq::empty()),
    }
}

/// The scheduler's transition: the next phase and the commands for the caller.
/// An event that does not belong to the current phase changes nothing.
pub open spec fn next(t: Timing, p: Phase, e: Event) -> (Phase, Seq<Command>) {
    match p {
        Phase::Idle => if e == Event::Begin {
            (Phase::WaitingForFirstInput, announce_wait())
        } else {
            (p, Seq::empty())
        },
        Phase::WaitingForFirstInput => waiting_next(
            p,
            e,
            (
                Phase::WorkTimer,
                seq![
                    Command::Notify(Notice::WorkStarted(t.work_ms)),
                    Command::StartWork,
                    Command::AwaitSkip((t.work_ms - t.grace_ms) as u64),
                ],
            ),
        ),
        Phase::WorkTimer => match e {
            Event::SkipArrived => (
                Phase::BreakSkipped,
                seq![Command::Notify(Notice::NoBreakNeeded), Command::PollInput],
            ),
            Event::WorkElapsed => (
                Phase::GraceWarning,
                seq![Command::Notify(Notice::LockingSoon(t.grace_ms)), Command::SleepGrace(t.grace_ms)],
            ),
            Event::SkipLost => (Phase::Halted, seq![Command::Halt]),
            _ => (p, Seq::empty()),
        },
        Phase::BreakSkipped => waiting_next(
            p,
            e,
            (Phase::WaitingForFirstInput, seq![Command::ClearSkipFlag] + announce_wait()),
        ),
        Phase::GraceWarning => if e == Event::GraceElapsed {
            (Phase::Locking, seq![Command::LockDevices])
        } else {
            (p, Seq::empty())
        },
        Phase::Locking => match e {
            Event::DevicesLocked => (
                Phase::Locked,
                seq![Command::Notify(Notice::BreakStarted(t.break_ms)), Command::SleepBreak(t.break_ms)],
            ),
            Event::LockFailed => (Phase::Halted, seq![Command::Halt]),
            _ => (p, Seq::empty()),
        },
        Phase::Locked => if e == Event::BreakElapsed {
            (Phase::WaitingForFirstInput, seq![Command::UnlockDevices] + announce_wait())
        } else {
            (p, Seq::empty())
        },
        Phase::Halted => (p, Seq::empty()),
    }
}

/// The work/break cycle. The caller performs the commands that each step
/// returns and hands back, as the next event, the outcome of the last one.
pub struct Scheduler {
    pub timing: Timing,
    pub phase: Phase,
}

impl Scheduler {
    pub open spec fn wf(&self) -> bool {
        self.timing.wf()
    }

    pub fn new(timing: Timing) -> (r: Scheduler)
        requires
            timing.wf(),
        ensures
            r.wf(),
            r.timing == timing,
            r.phase == Phase::Idle,
    {
        Scheduler { timing, phase: Phase::Idle }
    }

    /// Takes one event and returns the commands it calls for.
    pub fn step(&mut self, e: Event) -> (r: Vec<Command>)
        requires
            old(self).wf(),
        ensures
            final(self).wf(),
            final(self).timing == old(self).timing,
            (final(self).phase, r@) == next(old(self).timing, old(self).phase, e),
    {
        let t = self.timing;
        let until_grace = t.work_ms - t.grace_ms;
        let (p, r) = match self.phase {
            Phase::Idle => if e == Event::Begin {
                (Phase::WaitingForFirstInput, wait_commands())
            } else {
                (self.phase, Vec::new())
            },
            Phase::WaitingForFirstInput => match block_on_new_input(e) {
                InputWait::Drain => (self.phase, vec![Command::PollInput]),
                InputWait::Block => (self.phase, vec![Command::AwaitInput]),
                InputWait::Arrived => (
                    Phase::WorkTimer,
                    vec![
                        Command::Notify(Notice::WorkStarted(t.work_ms)),
                        Command::StartWork,
                        Command::AwaitSkip(until_grace),
                    ],
                ),
                InputWait::Lost => (Phase::Halted, vec![Command::Halt]),
                InputWait::Unrelated => (self.phase, Vec::new()),
            },
            Phase::WorkTimer => match e {
                Event::SkipArrived => (
                    Phase::BreakSkipped,
                    vec![Command::Notify(Notice::NoBreakNeeded), Command::PollInput],
                ),
                Event::WorkElapsed => (
                    Phase::GraceWarning,
                    vec![Command::Notify(Notice::LockingSoon(t.grace_ms)), Command::SleepGrace(t.grace_ms)],
                ),
                Event::SkipLost => (Phase::Halted, vec![Command::Halt]),
                _ => (self.phase, Vec::new()),
            },
            Phase::BreakSkipped => match block_on_new_input(e) {
                InputWait::Drain => (self.phase, vec![Command::PollInput]),
                InputWait::Block => (self.phase, vec![Command::AwaitInput]),
                InputWait::Arrived => (
                    Phase::WaitingForFirstInput,
                    vec![
                        Command::ClearSkipFlag,
                        Command::Notify(Notice::WaitingForInput),
                        Command::PollInput,
                    ],
                ),
                InputWait::Lost => (Phase::Halted, vec![Command::Halt]),
                InputWait::Unrelated => (self.phase, Vec::new()),
            },
            Phase::GraceWarning => if e == Event::GraceElapsed {
                (Phase::Locking, vec![Command::LockDevices])
            } else {
                (self.phase, Vec::new())
            },
            Phase::Locking => match e {
                Event::DevicesLocked => (
                    Phase::Locked,
                    vec![Command::Notify(Notice::BreakStarted(t.break_ms)), Command::SleepBreak(t.break_ms)],
                ),
                Event::LockFailed => (Phase::Halted, vec![Command::Halt]),
                _ => (self.phase, Vec::new()),
            },
            Phase::Locked => if e == Event::BreakElapsed {
                (
                    Phase::WaitingForFirstInput,
                    vec![
                        Command::UnlockDevices,
                        Command::Notify(Notice::WaitingForInput),
                        Command::PollInput,
                    ],
                )
            } else {
                (self.phase, Vec::new())
            },
            Phase::Halted => (self.phase, Vec::new()),
        };
        self.phase = p;
        assert(r@ =~= next(t, old(self).phase, e).1);
        r
    }
}

fn wait_commands() -> (r: Vec<Command>)
    ensures
        r@ == announce_wait(),
{
    let r = vec![Command::Notify(Notice::WaitingForInput), Command::PollInput];
    assert(r@ =~= announce_wait());
    r
}

/// The phase and the commands, in order, after each event of `events` in turn.
pub open spec fn run(t: Timing, p: Phase, events: Seq<Event>) -> (Phase, Seq<Command>)
    decreases events.len(),
{
    if events.len() == 0 {
        (p, Seq::empty())
    } else {
        let (q, done) = run(t, p, events.drop_last());
        let (r, more) = next(t, q, events.last());
        (r, done + more)
    }
}

/// The break-skip notices among `cmds`.
pub open spec fn skip_notices(cmds: Seq<Command>) -> nat {
    cmds.filter(|c: Command| c == Command::Notify(Notice::NoBreakNeeded)).len()
}

/// An activity signal, or the break-skip that activity leads to.
pub open spec fn is_activity(e: Event) -> bool {
    e == Event::InputQueued || e == Event::InputArrived || e == Event::SkipArrived
}

proof fn lemma_step_skips(t: Timing, q: Phase, e: Event)
    ensures
        skip_notices(next(t, q, e).1) <= 1,
        skip_notices(next(t, q, e).1) == 1 ==> q == Phase::WorkTimer && next(t, q, e).0
            == Phase::BreakSkipped,
        q != Phase::WorkTimer && next(t, q, e).0 == Phase::WorkTimer ==> next(
            t,
            q,
            e,
        ).1.contains(Command::StartWork),
{
    reveal_with_fuel(Seq::filter, 4);
    let d = next(t, q, e).1;
    if q == Phase::WaitingForFirstInput && e == Event::InputArrived {
        assert(d[1] == Command::StartWork);
    }
}

/// Within one work interval, however much activity arrives, at most one
/// break-skip notice goes to the users: between two notices the work timer
/// is always started again.
pub proof fn lemma_one_skip_per_work_interval(t: Timing, p: Phase, events: Seq<Event>)
    requires
        !run(t, p, events).1.contains(Command::StartWork),
    ensures
        skip_notices(run(t, p, events).1) <= 1,
        skip_notices(run(t, p, events).1) == 1 ==> run(t, p, events).0 != Phase::WorkTimer,
    decreases events.len(),
{
    if events.len() > 0 {
        let prefix = events.drop_last();
        let (q, done) = run(t, p, prefix);
        let (r, more) = next(t, q, events.last());
        assert(run(t, p, events).1 == done + more);
        assert forall|c: Command| done.contains(c) implies (done + more).contains(c) by {
            let i = choose|i: int| 0 <= i < done.len() && done[i] == c;
            assert((done + more)[i] == c);
        }
        assert forall|c: Command| more.contains(c) implies (done + more).contains(c) by {
            let i = choose|i: int| 0 <= i < more.len() && more[i] == c;
            assert((done + more)[done.len() + i] == c);
        }
        lemma_one_skip_per_work_interval(t, p, prefix);
        lemma_step_skips(t, q, events.last());
        Seq::filter_distributes_over_add(
            done,
            more,
            |c: Command| c == Command::Notify(Notice::NoBreakNeeded),
        );
    }
}

/// Activity during the grace warning changes nothing: the scheduler still
/// locks the devices when the grace period is over.
pub proof fn lemma_grace_is_unconditional(t: Timing, events: Seq<Event>)
    requires
        forall|i: int| 0 <= i < events.len() ==> is_activity(#[trigger] events[i]),
    ensures
        run(t, Phase::GraceWarning, events) == (Phase::GraceWarning, Seq::<Command>::empty()),
        run(t, Phase::GraceWarning, events.push(Event::GraceElapsed)) == (
            Phase::Locking,
            seq![Command::LockDevices],
        ),
    decreases events.len(),
{
    if events.len() > 0 {
        let prefix = events.drop_last();
        assert forall|i: int| 0 <= i < prefix.len() implies is_activity(#[trigger] prefix[i]) by {
            assert(prefix[i] == events[i]);
        }
        lemma_grace_is_unconditional(t, prefix);
        assert(is_activity(events[events.len() - 1]));
        assert(Seq::<Command>::empty() + Seq::<Command>::empty() =~= Seq::<Command>::empty());
    }
    let pushed = events.push(Event::GraceElapsed);
    assert(pushed.drop_last() =~= events);
    assert(Seq::<Command>::empty() + seq![Command::LockDevices] =~= seq![Command::LockDevices]);
}

/// Whether a lock taken in `cmds` is still held at its end: the last lock or
/// unlock command among them is a lock.
pub open spec fn locks_outstanding(cmds: Seq<Command>) -> bool
    decreases cmds.len(),
{
    if cmds.len() == 0 {
        false
    } else if cmds.last() == Command::LockDevices {
        true
    } else if cmds.last() == Command::UnlockDevices {
        false
    } else {
        locks_outstanding(cmds.drop_last())
    }
}

proof fn lemma_outstanding_append(c: Seq<Command>, d: Seq<Command>)
    requires
        !d.contains(Command::LockDevices),
        !d.contains(Command::UnlockDevices),
    ensures
        locks_outstanding(c + d) == locks_outstanding(c),
    decreases d.len(),
{
    if d.len() > 0 {
        assert((c + d).drop_last() =~= c + d.drop_last());
        assert(d.drop_last().len() < d.len());
        assert forall|x: Command| d.drop_last().contains(x) implies d.contains(x) by {
            let i = choose|i: int| 0 <= i < d.drop_last().len() && d.drop_last()[i] == x;
            assert(d[i] == x);
        }
        assert((c + d).last() == d[d.len() - 1]);
        lemma_outstanding_append(c, d.drop_last());
    }
}

/// The work timer never starts while a device is locked: at each start of
/// work in a run that begins with no lock held, every lock taken before has
/// been released.
pub proof fn lemma_unlock_before_next_work(t: Timing, p: Phase, events: Seq<Event>)
    requires
        p != Phase::Locking,
        p != Phase::Locked,
    ensures
        forall|k: int|
            0 <= k < run(t, p, events).1.len() && #[trigger] run(t, p, events).1[k]
                == Command::StartWork ==> !locks_outstanding(run(t, p, events).1.take(k)),
        locks_outstanding(run(t, p, events).1) ==> run(t, p, events).0 == Phase::Locking || run(
            t,
            p,
            events,
        ).0 == Phase::Locked || run(t, p, events).0 == Phase::Halted,
    decreases events.len(),
{
    if events.len() > 0 {
        let prefix = events.drop_last();
        let e = events.last();
        let (q, c) = run(t, p, prefix);
        let (r, d) = next(t, q, e);
        lemma_unlock_before_next_work(t, p, prefix);
        assert(run(t, p, events).1 == c + d);
        reveal_with_fuel(locks_outstanding, 4);
        if q == Phase::GraceWarning && e == Event::GraceElapsed {
            assert((c + d).drop_last() =~= c);
        } else if q == Phase::Locked && e == Event::BreakElapsed {
            assert((c + d).drop_last().drop_last().drop_last() =~= c);
        } else {
            assert forall|i: int| 0 <= i < d.len() implies d[i] != Command::LockDevices && d[i]
                != Command::UnlockDevices by {}
            lemma_outstanding_append(c, d);
        }
        assert forall|k: int|
            0 <= k < (c + d).len() && #[trigger] (c + d)[k] == Command::StartWork implies !locks_outstanding(
            (c + d).take(k),
        ) by {
            if k < c.len() {
                assert((c + d).take(k) =~= c.take(k));
                assert(c[k] == Command::StartWork);
            } else {
                assert(q == Phase::WaitingForFirstInput && e == Event::InputArrived && k == c.len()
                    + 1);
                assert((c + d).take(k) =~= c + seq![d[0]]);
                assert(!seq![d[0]].contains(Command::LockDevices));
                assert(!seq![d[0]].contains(Command::UnlockDevices));
                lemma_outstanding_append(c, seq![d[0]]);
            }
        }
    }
}

} // verus!
