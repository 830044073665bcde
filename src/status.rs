use vstd::prelude::*;
use crate::countdown::{Countdown, EngineState, Phase, Stage, engine_wf};
use crate::time::{Time, clock_text};

verus! {

/// An event for the status-bar listener.
#[derive(Clone, Copy, Debug, PartialEq, Eq, Structural)]
pub enum BarMessage {
    Running(Time, Stage),
    Paused(Time, Stage),
    Disconnecting,
}

/// The channel name on which the listener receives the events.
pub open spec fn bar_channel() -> Seq<char> {
    "tomate-pomodoro"@
}

/// The stage's name inside a status-bar payload.
pub open spec fn bar_stage_name(stage: Stage) -> Seq<char> {
    match stage {
        Stage::Work => "work"@,
        Stage::Rest => "rest"@,
    }
}

/// The payload of an event: `<stage> - <MM:SS>`, followed by ` (Paused)` for a
/// pause; a disconnection carries no text.
pub open spec fn bar_text(m: BarMessage) -> Seq<char> {
    match m {
        BarMessage::Running(t, stage) => bar_stage_name(stage) + " - "@ + clock_text(
            t.minutes as int,
            t.seconds as int,
        ),
        BarMessage::Paused(t, stage) => bar_stage_name(stage) + " - "@ + clock_text(
            t.minutes as int,
            t.seconds as int,
        ) + " (Paused)"@,
        BarMessage::Disconnecting => Seq::empty(),
    }
}

/// The event that reports a countdown in state `s`: running or paused, with
/// the displayed time; none once it has ended.
pub open spec fn bar_message_of(s: EngineState) -> Option<BarMessage> {
    match s.phase {
        Phase::Running => Some(
            BarMessage::Running(
                Time {
                    minutes: ((s.remaining + s.offset) / 60) as u32,
                    seconds: ((s.remaining + s.offset) % 60) as u32,
                },
                s.stage,
            ),
        ),
        Phase::Paused => Some(
            BarMessage::Paused(
                Time {
                    minutes: ((s.remaining + s.offset) / 60) as u32,
                    seconds: ((s.remaining + s.offset) % 60) as u32,
                },
                s.stage,
            ),
        ),
        _ => None,
    }
}

/// The name of the channel on which events are sent.
pub fn channel_name() -> (r: &'static str)
    ensures
        r@ == bar_channel(),
{
    "tomate-pomodoro"
}

impl BarMessage {
    /// The event that reports `c` as it stands, if it still runs or is paused.
    pub fn of_countdown(c: &Countdown) -> (r: Option<BarMessage>)
        requires
            engine_wf(c@),
        ensures
            r == bar_message_of(c@),
    {
        let t = c.display_time();
        match c.phase() {
            Phase::Running => Some(BarMessage::Running(t, c.stage())),
            Phase::Paused => Some(BarMessage::Paused(t, c.stage())),
            _ => None,
        }
    }

    /// The text that the event carries.
    pub fn payload(&self) -> (r: String)
        requires
            match *self {
                BarMessage::Running(t, _) => t.wf(),
                BarMessage::Paused(t, _) => t.wf(),
                BarMessage::Disconnecting => true,
            },
        ensures
            r@ == bar_text(*self),
    {
        match self {
            BarMessage::Running(t, stage) => {
                let mut r = String::from_str(stage_name(*stage));
                r.append(" - ");
                let clock = t.format();
                r.append(clock.as_str());
                r
            },
            BarMessage::Paused(t, stage) => {
                let mut r = String::from_str(stage_name(*stage));
                r.append(" - ");
                let clock = t.format();
                r.append(clock.as_str());
                r.append(" (Paused)");
                r
            },
            BarMessage::Disconnecting => String::new(),
        }
    }

    /// Whether the listener session ends after this event.
    pub fn closes_session(&self) -> (r: bool)
        ensures
            r <==> *self == BarMessage::Disconnecting,
    {
        match self {
            BarMessage::Disconnecting => true,
            _ => false,
        }
    }
}

fn stage_name(stage: Stage) -> (r: &'static str)
    ensures
        r@ == bar_stage_name(stage),
{
    match stage {
        Stage::Work => "work",
        Stage::Rest => "rest",
    }
}

} // verus!
