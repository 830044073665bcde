use tomate::countdown::{Countdown, Signal, Stage};
use tomate::status::{channel_name, BarMessage};
use tomate::time::Time;

#[test]
fn running_payload() {
    let m = BarMessage::Running(Time { minutes: 1, seconds: 15 }, Stage::Work);
    assert_eq!(m.payload(), "work - 01:15");
    assert!(!m.closes_session());
}

#[test]
fn paused_payload() {
    let m = BarMessage::Paused(Time { minutes: 4, seconds: 0 }, Stage::Rest);
    assert_eq!(m.payload(), "rest - 04:00 (Paused)");
}

#[test]
fn disconnecting_payload() {
    assert_eq!(BarMessage::Disconnecting.payload(), "");
    assert!(BarMessage::Disconnecting.closes_session());
    assert_eq!(channel_name(), "tomate-pomodoro");
}

#[test]
fn message_of_a_countdown() {
    let mut c = Countdown::start(30, 30, Stage::Work);
    assert_eq!(
        BarMessage::of_countdown(&c),
        Some(BarMessage::Running(Time { minutes: 1, seconds: 0 }, Stage::Work))
    );
    c.handle(Signal::Deadline);
    c.handle(Signal::Other);
    assert_eq!(
        BarMessage::of_countdown(&c),
        Some(BarMessage::Paused(Time { minutes: 0, seconds: 59 }, Stage::Work))
    );
    c.handle(Signal::Skip);
    assert_eq!(BarMessage::of_countdown(&c), None);
}
