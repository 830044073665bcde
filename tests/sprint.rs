use tomate::countdown::{Countdown, Outcome, Signal, Stage};
use tomate::sprint::{observer_token, reward_token, ConfigError, Directive, Tomato};

/// Runs a countdown to its end, feeding it `inputs` by second (a line at
/// second `k` arrives before the `k`-th deadline), and counts the deadlines.
fn run_countdown(total: u64, offset: u64, stage: Stage, inputs: &[(u64, Signal)]) -> (Outcome, u64, u64) {
    let mut c = Countdown::start(total, offset, stage);
    let mut ticks = 0u64;
    loop {
        if let Some(o) = c.outcome() {
            return (o, ticks, c.remaining_secs());
        }
        let mut sig = Signal::Deadline;
        for (at, s) in inputs {
            if *at == ticks {
                sig = *s;
            }
        }
        if sig == Signal::Deadline {
            ticks += 1;
        }
        c.handle(sig);
    }
}

#[test]
fn config_errors() {
    assert_eq!(Tomato::new().set_work_time(0).err(), Some(ConfigError::ZeroWorkTime));
    assert_eq!(Tomato::new().set_work_time(60).err(), Some(ConfigError::WorkTimeTooLong));
    assert_eq!(Tomato::new().set_rest_time(0).err(), Some(ConfigError::ZeroRestTime));
    assert_eq!(Tomato::new().set_rest_time(75).err(), Some(ConfigError::RestTimeTooLong));
    assert!(Tomato::new().set_work_time(59).is_ok());
    assert_eq!(ConfigError::ZeroWorkTime.message(), "the work_time argument can't be zero!");
}

#[test]
fn default_cycle_durations() {
    let mut t = Tomato::new().run_sprint();
    assert_eq!(t.next_directive(Outcome::Completed), Directive::AnnounceWork { cycle: 1, minutes: 25 });
    assert_eq!(
        t.next_directive(Outcome::Completed),
        Directive::Countdown { total_secs: 750, offset_secs: 750, stage: Stage::Work }
    );
}

#[test]
fn one_minute_sprint_without_input() {
    let mut t = Tomato::new().set_work_time(1).unwrap().set_rest_time(1).unwrap().sprint_length(1);
    let mut log = Vec::new();
    let mut last = Outcome::Completed;
    loop {
        let d = t.next_directive(last);
        log.push(d);
        match d {
            Directive::Countdown { total_secs, offset_secs, stage } => {
                let (o, ticks, _) = run_countdown(total_secs, offset_secs, stage, &[]);
                assert_eq!(ticks, total_secs);
                last = o;
            }
            Directive::Finished => break,
            _ => {}
        }
    }
    assert_eq!(
        log,
        vec![
            Directive::AnnounceWork { cycle: 1, minutes: 1 },
            Directive::Countdown { total_secs: 30, offset_secs: 30, stage: Stage::Work },
            Directive::Midpoint { observer: 0 },
            Directive::Countdown { total_secs: 30, offset_secs: 0, stage: Stage::Work },
            Directive::Reward { cycle: 1, reward: 0, rest_minutes: 1 },
            Directive::Countdown { total_secs: 60, offset_secs: 0, stage: Stage::Rest },
            Directive::Separator,
            Directive::Disconnect,
            Directive::Finished,
        ]
    );
    assert_eq!(t.next_directive(Outcome::Completed), Directive::Finished);
}

#[test]
fn skip_during_rest() {
    let (o, ticks, remaining) = run_countdown(60, 0, Stage::Rest, &[(10, Signal::Skip)]);
    assert_eq!(o, Outcome::Skipped);
    assert_eq!(ticks, 10);
    assert_eq!(remaining, 50);

    let mut t = Tomato::new().set_work_time(1).unwrap().set_rest_time(1).unwrap().sprint_length(1);
    let mut d = t.next_directive(Outcome::Completed);
    while d != (Directive::Countdown { total_secs: 60, offset_secs: 0, stage: Stage::Rest }) {
        d = t.next_directive(Outcome::Completed);
    }
    assert_eq!(t.next_directive(Outcome::Skipped), Directive::Separator);
    assert_eq!(t.next_directive(Outcome::Completed), Directive::Disconnect);
}

#[test]
fn skipped_first_half_abandons_the_work_period() {
    let mut t = Tomato::new().set_work_time(10).unwrap().set_rest_time(2).unwrap();
    assert_eq!(t.next_directive(Outcome::Completed), Directive::AnnounceWork { cycle: 1, minutes: 10 });
    t.next_directive(Outcome::Completed);
    assert_eq!(
        t.next_directive(Outcome::Skipped),
        Directive::Countdown { total_secs: 120, offset_secs: 0, stage: Stage::Rest }
    );
    assert_eq!(t.next_directive(Outcome::Completed), Directive::Separator);
    assert_eq!(t.next_directive(Outcome::Completed), Directive::AnnounceWork { cycle: 2, minutes: 10 });
    t.next_directive(Outcome::Completed);
    assert_eq!(t.next_directive(Outcome::Completed), Directive::Midpoint { observer: 0 });
    t.next_directive(Outcome::Completed);
    assert_eq!(t.next_directive(Outcome::Skipped), Directive::Countdown { total_secs: 120, offset_secs: 0, stage: Stage::Rest });
}

#[test]
fn token_pools_cycle() {
    let mut t = Tomato::new().set_work_time(1).unwrap().set_rest_time(1).unwrap();
    let mut rewards = Vec::new();
    let mut observers = Vec::new();
    while rewards.len() < 5 {
        match t.next_directive(Outcome::Completed) {
            Directive::Reward { reward, .. } => rewards.push(reward),
            Directive::Midpoint { observer } => observers.push(observer),
            _ => {}
        }
    }
    assert_eq!(rewards, vec![0, 1, 2, 3, 0]);
    assert_eq!(observers, vec![0, 1, 2, 3, 0]);
    assert_eq!(reward_token(0), "🍅");
    assert_eq!(observer_token(3), "🚨");
    assert_eq!(t.current_tomato(), 5);
}

#[test]
fn standard_sprint_has_four_cycles() {
    let mut t = Tomato::new().run_sprint();
    let mut cycles = 0;
    loop {
        match t.next_directive(Outcome::Completed) {
            Directive::AnnounceWork { .. } => cycles += 1,
            Directive::Disconnect => break,
            _ => {}
        }
    }
    assert_eq!(cycles, 4);
}
