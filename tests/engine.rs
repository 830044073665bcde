use tomate::countdown::{classify_line, Action, Countdown, Outcome, Phase, Signal, Stage};

fn run_signals(c: &mut Countdown, signals: &[Signal]) -> Vec<Action> {
    signals.iter().map(|s| c.handle(*s)).collect()
}

#[test]
fn skip_keyword_anywhere_in_the_line_skips() {
    assert_eq!(classify_line("skip\n"), Signal::Skip);
    assert_eq!(classify_line("please skip this"), Signal::Skip);
    assert_eq!(classify_line("\n"), Signal::Other);
    assert_eq!(classify_line(""), Signal::Other);
    assert_eq!(classify_line("pause\n"), Signal::Other);
    assert_eq!(classify_line("ski p"), Signal::Other);
    assert_eq!(classify_line("çskip"), Signal::Skip);
}

#[test]
fn uninterrupted_countdown_ticks_every_second_then_completes() {
    for minutes in [1u64, 2, 59] {
        let total = minutes * 60;
        let mut c = Countdown::start(total, 0, Stage::Rest);
        let mut decrements = 0u64;
        while c.outcome().is_none() {
            let before = c.remaining_secs();
            let action = c.handle(Signal::Deadline);
            assert_eq!(c.remaining_secs(), before - 1);
            decrements += 1;
            if c.remaining_secs() == 0 {
                assert_eq!(action, Action::Complete);
            } else {
                assert_eq!(action, Action::Redraw);
            }
        }
        assert_eq!(decrements, total);
        assert_eq!(c.outcome(), Some(Outcome::Completed));
    }
}

#[test]
fn zero_seconds_is_completed_at_once() {
    let c = Countdown::start(0, 0, Stage::Work);
    assert_eq!(c.outcome(), Some(Outcome::Completed));
}

#[test]
fn skip_keeps_the_time_left() {
    let mut c = Countdown::start(60, 30, Stage::Work);
    run_signals(&mut c, &[Signal::Deadline; 7]);
    assert_eq!(c.handle(Signal::Skip), Action::Skip);
    assert_eq!(c.outcome(), Some(Outcome::Skipped));
    assert_eq!(c.remaining_secs(), 53);
    assert_eq!(c.display_time().format(), "01:23");
    assert_eq!(c.handle(Signal::Deadline), Action::Ignore);
    assert_eq!(c.remaining_secs(), 53);
}

#[test]
fn skip_while_paused() {
    let mut c = Countdown::start(60, 0, Stage::Rest);
    assert_eq!(c.handle(Signal::Other), Action::Pause);
    assert_eq!(c.handle(Signal::Skip), Action::Skip);
    assert_eq!(c.outcome(), Some(Outcome::Skipped));
    assert_eq!(c.remaining_secs(), 60);
}

#[test]
fn pause_loses_no_time() {
    let mut c = Countdown::start(90, 0, Stage::Work);
    run_signals(&mut c, &[Signal::Deadline; 5]);
    assert_eq!(c.handle(Signal::Other), Action::Pause);
    assert_eq!(c.phase(), Phase::Paused);
    let ignored = run_signals(&mut c, &[Signal::Deadline; 1000]);
    assert!(ignored.iter().all(|a| *a == Action::Ignore));
    assert_eq!(c.remaining_secs(), 85);
    assert_eq!(c.handle(Signal::Other), Action::Resume);
    assert_eq!(c.phase(), Phase::Running);
    assert_eq!(c.remaining_secs(), 85);
}

#[test]
fn pauses_do_not_change_the_outcome() {
    let plain = [Signal::Deadline, Signal::Deadline, Signal::Deadline];
    let paused = [
        Signal::Other,
        Signal::Other,
        Signal::Deadline,
        Signal::Other,
        Signal::Other,
        Signal::Deadline,
        Signal::Other,
        Signal::Other,
        Signal::Deadline,
    ];
    let mut a = Countdown::start(3, 0, Stage::Rest);
    let mut b = Countdown::start(3, 0, Stage::Rest);
    run_signals(&mut a, &plain);
    run_signals(&mut b, &paused);
    assert_eq!(a.outcome(), Some(Outcome::Completed));
    assert_eq!(b.outcome(), Some(Outcome::Completed));
    assert_eq!(a.remaining_secs(), b.remaining_secs());
}

#[test]
fn stage_labels() {
    assert_eq!(Stage::Work.label(), "[Work]");
    assert_eq!(Stage::Rest.label(), "[Rest]");
}

#[test]
fn feeding_deadlines_completes_on_the_last_second() {
    for minutes in 1u64..60 {
        let total = minutes * 60;
        let mut c = Countdown::start(total, 0, Stage::Work);
        let almost = vec![Signal::Deadline; (total - 1) as usize];
        assert_eq!(c.feed(&almost), None);
        assert_eq!(c.remaining_secs(), 1);
        assert_eq!(c.feed(&[Signal::Deadline]), Some(Outcome::Completed));
        assert_eq!(c.remaining_secs(), 0);
    }
}

#[test]
fn feeding_a_skip_stops_at_once() {
    let mut c = Countdown::start(120, 0, Stage::Rest);
    let signals = [Signal::Deadline, Signal::Deadline, Signal::Skip, Signal::Deadline, Signal::Other];
    assert_eq!(c.feed(&signals), Some(Outcome::Skipped));
    assert_eq!(c.remaining_secs(), 118);
}
