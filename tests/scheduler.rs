use breaklock::{block_on_new_input, Command, Event, InputWait, Notice, Phase, Scheduler, Timing};

const MIN: u64 = 60_000;

fn timing() -> Timing {
    Timing { work_ms: 15 * MIN, grace_ms: 20_000, break_ms: 5 * MIN }
}

fn waited(cmds: &[Command]) -> u64 {
    cmds.iter()
        .map(|c| match c {
            Command::AwaitSkip(ms) | Command::SleepGrace(ms) | Command::SleepBreak(ms) => *ms,
            _ => 0,
        })
        .sum()
}

fn started() -> Scheduler {
    let mut s = Scheduler::new(timing());
    assert_eq!(
        s.step(Event::Begin),
        vec![Command::Notify(Notice::WaitingForInput), Command::PollInput]
    );
    assert_eq!(s.phase, Phase::WaitingForFirstInput);
    s
}

fn working() -> Scheduler {
    let mut s = started();
    assert_eq!(s.step(Event::InputQueueEmpty), vec![Command::AwaitInput]);
    let cmds = s.step(Event::InputArrived);
    assert_eq!(
        cmds,
        vec![
            Command::Notify(Notice::WorkStarted(15 * MIN)),
            Command::StartWork,
            Command::AwaitSkip(14 * MIN + 40_000),
        ]
    );
    assert_eq!(s.phase, Phase::WorkTimer);
    s
}

#[test]
fn stale_signals_are_drained_before_blocking() {
    assert_eq!(block_on_new_input(Event::InputQueued), InputWait::Drain);
    assert_eq!(block_on_new_input(Event::InputQueueEmpty), InputWait::Block);
    assert_eq!(block_on_new_input(Event::InputArrived), InputWait::Arrived);
    assert_eq!(block_on_new_input(Event::InputLost), InputWait::Lost);
    assert_eq!(block_on_new_input(Event::GraceElapsed), InputWait::Unrelated);

    let mut s = started();
    assert_eq!(s.step(Event::InputQueued), vec![Command::PollInput]);
    assert_eq!(s.step(Event::InputQueued), vec![Command::PollInput]);
    assert_eq!(s.step(Event::InputQueueEmpty), vec![Command::AwaitInput]);
    assert_eq!(s.phase, Phase::WaitingForFirstInput);
}

#[test]
fn full_cycle_without_activity() {
    let mut s = started();
    s.step(Event::InputQueueEmpty);
    let mut clock = 0;
    let cmds = s.step(Event::InputArrived);
    assert_eq!(s.phase, Phase::WorkTimer);
    clock += waited(&cmds);
    assert_eq!(clock, 14 * MIN + 40_000);

    let cmds = s.step(Event::WorkElapsed);
    assert_eq!(s.phase, Phase::GraceWarning);
    assert_eq!(
        cmds,
        vec![Command::Notify(Notice::LockingSoon(20_000)), Command::SleepGrace(20_000)]
    );
    clock += waited(&cmds);
    assert_eq!(clock, 15 * MIN);

    assert_eq!(s.step(Event::GraceElapsed), vec![Command::LockDevices]);
    assert_eq!(s.phase, Phase::Locking);
    let cmds = s.step(Event::DevicesLocked);
    assert_eq!(s.phase, Phase::Locked);
    assert_eq!(
        cmds,
        vec![Command::Notify(Notice::BreakStarted(5 * MIN)), Command::SleepBreak(5 * MIN)]
    );
    clock += waited(&cmds);
    assert_eq!(clock, 20 * MIN);

    let cmds = s.step(Event::BreakElapsed);
    assert_eq!(
        cmds,
        vec![
            Command::UnlockDevices,
            Command::Notify(Notice::WaitingForInput),
            Command::PollInput,
        ]
    );
    assert_eq!(s.phase, Phase::WaitingForFirstInput);
}

#[test]
fn skip_waits_for_the_next_activity_burst() {
    let mut s = working();
    let cmds = s.step(Event::SkipArrived);
    assert_eq!(
        cmds,
        vec![Command::Notify(Notice::NoBreakNeeded), Command::PollInput]
    );
    assert_eq!(s.phase, Phase::BreakSkipped);
    for _ in 0..100 {
        assert_eq!(s.step(Event::InputQueueEmpty), vec![Command::AwaitInput]);
        assert_eq!(s.phase, Phase::BreakSkipped);
    }
    let cmds = s.step(Event::InputArrived);
    assert_eq!(
        cmds,
        vec![
            Command::ClearSkipFlag,
            Command::Notify(Notice::WaitingForInput),
            Command::PollInput,
        ]
    );
    assert_eq!(s.phase, Phase::WaitingForFirstInput);
}

#[test]
fn one_skip_notice_per_work_interval() {
    let mut s = working();
    let mut notices = 0;
    for e in [
        Event::SkipArrived,
        Event::SkipArrived,
        Event::InputQueued,
        Event::SkipArrived,
        Event::InputQueueEmpty,
        Event::SkipArrived,
    ] {
        for c in s.step(e) {
            assert_ne!(c, Command::StartWork);
            if c == Command::Notify(Notice::NoBreakNeeded) {
                notices += 1;
            }
        }
    }
    assert_eq!(notices, 1);
}

#[test]
fn activity_during_grace_does_not_cancel_the_lock() {
    let mut s = working();
    s.step(Event::WorkElapsed);
    for e in [Event::InputQueued, Event::InputArrived, Event::SkipArrived] {
        assert!(s.step(e).is_empty());
        assert_eq!(s.phase, Phase::GraceWarning);
    }
    assert_eq!(s.step(Event::GraceElapsed), vec![Command::LockDevices]);
    assert_eq!(s.phase, Phase::Locking);
}

#[test]
fn lost_collaborators_halt() {
    let mut s = started();
    assert_eq!(s.step(Event::InputLost), vec![Command::Halt]);
    assert_eq!(s.phase, Phase::Halted);
    assert!(s.step(Event::InputArrived).is_empty());

    let mut s = working();
    assert_eq!(s.step(Event::SkipLost), vec![Command::Halt]);
    assert_eq!(s.phase, Phase::Halted);

    let mut s = working();
    s.step(Event::WorkElapsed);
    s.step(Event::GraceElapsed);
    assert_eq!(s.step(Event::LockFailed), vec![Command::Halt]);
    assert_eq!(s.phase, Phase::Halted);
}

#[test]
fn events_before_begin_are_ignored() {
    let mut s = Scheduler::new(timing());
    assert!(s.step(Event::InputArrived).is_empty());
    assert_eq!(s.phase, Phase::Idle);
}
