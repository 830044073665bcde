use vstd::prelude::*;
use crate::countdown::{Outcome, Stage};

verus! {

/// Work minutes when none are configured.
pub const DEFAULT_WORK_MINUTES: u32 = 25;

/// Rest minutes when none are configured.
pub const DEFAULT_REST_MINUTES: u32 = 5;

/// Cycles in a standard sprint.
pub const STANDARD_SPRINT_LENGTH: u64 = 4;

/// Tokens in each of the reward and observer pools.
pub const POOL_LEN: usize = 4;

/// A configured duration is rejected.
#[derive(Clone, Copy, Debug, PartialEq, Eq, Structural)]
pub enum ConfigError {
    ZeroWorkTime,
    WorkTimeTooLong,
    ZeroRestTime,
    RestTimeTooLong,
}

/// The diagnostic for each rejected duration.
pub open spec fn config_message(e: ConfigError) -> Seq<char> {
    match e {
        ConfigError::ZeroWorkTime => "the work_time argument can't be zero!"@,
        ConfigError::WorkTimeTooLong => "the work_time argument cannot be bigger than a hour."@,
        ConfigError::ZeroRestTime => "the rest_time argument can't be zero!"@,
        ConfigError::RestTimeTooLong => "the rest_time argument cannot be bigger than a hour."@,
    }
}

impl ConfigError {
    /// The diagnostic shown to the user.
    pub fn message(&self) -> (r: &'static str)
        ensures
            r@ == config_message(*self),
    {
        match self {
            ConfigError::ZeroWorkTime => "the work_time argument can't be zero!",
            ConfigError::WorkTimeTooLong => "the work_time argument cannot be bigger than a hour.",
            ConfigError::ZeroRestTime => "the rest_time argument can't be zero!",
            ConfigError::RestTimeTooLong => "the rest_time argument cannot be bigger than a hour.",
        }
    }
}

/// Where the current cycle stands, between two directives.
#[derive(Clone, Copy, Debug, PartialEq, Eq, Structural)]
pub enum CycleStep {
    /// Between cycles: the next directive starts a cycle or ends the sprint.
    Ready,
    /// The work period was announced; its first half comes next.
    Announced,
    /// The first half of the work period is counting down.
    FirstHalf,
    /// The midpoint was announced; the second half comes next.
    Midway,
    /// The second half of the work period is counting down.
    SecondHalf,
    /// The reward was handed out; the rest period comes next.
    WorkDone,
    /// The rest period is counting down.
    Resting,
    /// The sprint has ended and the listener was told.
    Closed,
}

/// What the driver of a sprint has to do next.
#[derive(Clone, Copy, Debug, PartialEq, Eq, Structural)]
pub enum Directive {
    /// Announce the start of work cycle `cycle`, of `minutes` minutes.
    AnnounceWork { cycle: u64, minutes: u32 },
    /// Run one countdown and hand its outcome to the next call.
    Countdown { total_secs: u64, offset_secs: u64, stage: Stage },
    /// Announce the middle of the work period with this observer token.
    Midpoint { observer: usize },
    /// Announce the end of work cycle `cycle` with this reward token, and the
    /// minutes of rest that follow.
    Reward { cycle: u64, reward: usize, rest_minutes: u32 },
    /// Print the blank line that closes a cycle.
    Separator,
    /// Tell the status-bar listener that the sprint is over.
    Disconnect,
    /// Nothing is left to do.
    Finished,
}

/// The abstract state of a sprint.
pub ghost struct SprintState {
    pub work_minutes: nat,
    pub rest_minutes: nat,
    pub cycle: nat,
    pub length: Option<nat>,
    pub reward: nat,
    pub observer: nat,
    pub step: CycleStep,
}

/// A configured duration, in minutes, is accepted.
pub open spec fn valid_minutes(m: int) -> bool {
    0 < m < 60
}

/// A well-formed sprint: both durations are accepted and both pool positions
/// lie inside their pools.
pub open spec fn sprint_wf(s: SprintState) -> bool {
    &&& valid_minutes(s.work_minutes as int)
    &&& valid_minutes(s.rest_minutes as int)
    &&& s.reward < POOL_LEN
    &&& s.observer < POOL_LEN
}

/// The sprint has run all the cycles it was bounded to.
pub open spec fn sprint_is_over(s: SprintState) -> bool {
    s.length matches Some(n) && s.cycle >= n
}

/// Half of the work period, in seconds.
pub open spec fn half_work_secs(s: SprintState) -> nat {
    s.work_minutes * 30
}

/// The directive that follows state `s`, where `last` is the outcome of the
/// countdown that the previous directive ran (consulted only then).
pub open spec fn directive_of(s: SprintState, last: Outcome) -> Directive {
    match s.step {
        CycleStep::Ready => if sprint_is_over(s) {
            Directive::Disconnect
        } else {
            Directive::AnnounceWork {
                cycle: (s.cycle + 1) as u64,
                minutes: s.work_minutes as u32,
            }
        },
        CycleStep::Announced => Directive::Countdown {
            total_secs: half_work_secs(s) as u64,
            offset_secs: half_work_secs(s) as u64,
            stage: Stage::Work,
        },
        CycleStep::FirstHalf | CycleStep::SecondHalf => if last == Outcome::Skipped {
            Directive::Countdown {
                total_secs: (s.rest_minutes * 60) as u64,
                offset_secs: 0,
                stage: Stage::Rest,
            }
        } else if s.step == CycleStep::FirstHalf {
            Directive::Midpoint { observer: s.observer as usize }
        } else {
            Directive::Reward {
                cycle: s.cycle as u64,
                reward: s.reward as usize,
                rest_minutes: s.rest_minutes as u32,
            }
        },
        CycleStep::Midway => Directive::Countdown {
            total_secs: half_work_secs(s) as u64,
            offset_secs: 0,
            stage: Stage::Work,
        },
        CycleStep::WorkDone => Directive::Countdown {
            total_secs: (s.rest_minutes * 60) as u64,
            offset_secs: 0,
            stage: Stage::Rest,
        },
        CycleStep::Resting => Directive::Separator,
        CycleStep::Closed => Directive::Finished,
    }
}

/// The state after the directive of `directive_of(s, last)` was handed out.
pub open spec fn sprint_next(s: SprintState, last: Outcome) -> SprintState {
    match s.step {
        CycleStep::Ready => if sprint_is_over(s) {
            SprintState { step: CycleStep::Closed, ..s }
        } else {
            SprintState { cycle: s.cycle + 1, step: CycleStep::Announced, ..s }
        },
        CycleStep::Announced => SprintState { step: CycleStep::FirstHalf, ..s },
        CycleStep::FirstHalf => if last == Outcome::Skipped {
            SprintState { step: CycleStep::Resting, ..s }
        } else {
            SprintState {
                observer: (s.observer + 1) % (POOL_LEN as nat),
                step: CycleStep::Midway,
                ..s
            }
        },
        CycleStep::Midway => SprintState { step: CycleStep::SecondHalf, ..s },
        CycleStep::SecondHalf => if last == Outcome::Skipped {
            SprintState { step: CycleStep::Resting, ..s }
        } else {
            SprintState {
                reward: (s.reward + 1) % (POOL_LEN as nat),
                step: CycleStep::WorkDone,
                ..s
            }
        },
        CycleStep::WorkDone => SprintState { step: CycleStep::Resting, ..s },
        CycleStep::Resting => SprintState { step: CycleStep::Ready, ..s },
        CycleStep::Closed => s,
    }
}

/// The directives that a sprint in state `s` hands out when the calls pass it
/// `outcomes`, one per call.
pub open spec fn sprint_trace(s: SprintState, outcomes: Seq<Outcome>) -> Seq<Directive>
    decreases outcomes.len(),
{
    if outcomes.len() == 0 {
        Seq::empty()
    } else {
        seq![directive_of(s, outcomes[0])] + sprint_trace(
            sprint_next(s, outcomes[0]),
            outcomes.drop_first(),
        )
    }
}

proof fn lemma_trace_len(s: SprintState, outcomes: Seq<Outcome>)
    ensures
        sprint_trace(s, outcomes).len() == outcomes.len(),
    decreases outcomes.len(),
{
    if outcomes.len() > 0 {
        lemma_trace_len(sprint_next(s, outcomes[0]), outcomes.drop_first());
    }
}

/// An ended sprint hands out nothing but `Finished`.
pub proof fn lemma_closed_sprint_is_finished(s: SprintState, outcomes: Seq<Outcome>)
    requires
        s.step == CycleStep::Closed,
    ensures
        sprint_trace(s, outcomes).len() == outcomes.len(),
        forall|i: int|
            0 <= i < outcomes.len() ==> #[trigger] sprint_trace(s, outcomes)[i]
                == Directive::Finished,
    decreases outcomes.len(),
{
    lemma_trace_len(s, outcomes);
    if outcomes.len() > 0 {
        let rest = outcomes.drop_first();
        lemma_closed_sprint_is_finished(s, rest);
        assert forall|i: int| 0 <= i < outcomes.len() implies #[trigger] sprint_trace(
            s,
            outcomes,
        )[i] == Directive::Finished by {
            if i > 0 {
                assert(sprint_trace(s, outcomes)[i] == sprint_trace(s, rest)[i - 1]);
            }
        }
    }
}

/// The listener is told at most once that the sprint is over: after a
/// `Disconnect`, every later directive is `Finished`.
pub proof fn lemma_disconnect_at_most_once(s: SprintState, outcomes: Seq<Outcome>, i: int, j: int)
    requires
        0 <= i < j < outcomes.len(),
        sprint_trace(s, outcomes)[i] == Directive::Disconnect,
    ensures
        sprint_trace(s, outcomes)[j] == Directive::Finished,
    decreases outcomes.len(),
{
    let rest = outcomes.drop_first();
    let next = sprint_next(s, outcomes[0]);
    lemma_trace_len(next, rest);
    assert(sprint_trace(s, outcomes)[j] == sprint_trace(next, rest)[j - 1]);
    if i == 0 {
        lemma_closed_sprint_is_finished(next, rest);
    } else {
        assert(sprint_trace(s, outcomes)[i] == sprint_trace(next, rest)[i - 1]);
        lemma_disconnect_at_most_once(next, rest, i - 1, j - 1);
    }
}

/// A sprint of work and rest cycles: its configuration and how far it got.
pub struct Tomato {
    work_time: u32,
    rest_time: u32,
    current_tomato: u64,
    sprint_length: Option<u64>,
    reward_pos: usize,
    observer_pos: usize,
    step: CycleStep,
}

impl View for Tomato {
    type V = SprintState;

    closed spec fn view(&self) -> SprintState {
        SprintState {
            work_minutes: self.work_time as nat,
            rest_minutes: self.rest_time as nat,
            cycle: self.current_tomato as nat,
            length: match self.sprint_length {
                Some(n) => Some(n as nat),
                None => None,
            },
            reward: self.reward_pos as nat,
            observer: self.observer_pos as nat,
            step: self.step,
        }
    }
}

impl Tomato {
    pub closed spec fn wf(&self) -> bool {
        sprint_wf(self@)
    }

    /// A sprint of 25 minutes of work and 5 of rest, with no bound on its
    /// cycles, that has not started.
    pub fn new() -> (r: Tomato)
        ensures
            r.wf(),
            r@ == (SprintState {
                work_minutes: DEFAULT_WORK_MINUTES as nat,
                rest_minutes: DEFAULT_REST_MINUTES as nat,
                cycle: 0,
                length: None,
                reward: 0,
                observer: 0,
                step: CycleStep::Ready,
            }),
    {
        Tomato {
            work_time: DEFAULT_WORK_MINUTES,
            rest_time: DEFAULT_REST_MINUTES,
            current_tomato: 0,
            sprint_length: None,
            reward_pos: 0,
            observer_pos: 0,
            step: CycleStep::Ready,
        }
    }

    /// The sprint with `work_time` minutes of work per cycle.
    pub fn work_time(self, work_time: u32) -> (r: Tomato)
        requires
            self.wf(),
            valid_minutes(work_time as int),
        ensures
            r.wf(),
            r@ == (SprintState { work_minutes: work_time as nat, ..self@ }),
    {
        Tomato { work_time, ..self }
    }

    /// The sprint with `rest_time` minutes of rest per cycle.
    pub fn rest_time(self, rest_time: u32) -> (r: Tomato)
        requires
            self.wf(),
            valid_minutes(rest_time as int),
        ensures
            r.wf(),
            r@ == (SprintState { rest_minutes: rest_time as nat, ..self@ }),
    {
        Tomato { rest_time, ..self }
    }

    /// The sprint with `work_time` minutes of work per cycle; zero minutes,
    /// or an hour or more, are rejected.
    pub fn set_work_time(self, work_time: u32) -> (r: Result<Tomato, ConfigError>)
        requires
            self.wf(),
        ensures
            work_time == 0 <==> r == Err::<Tomato, ConfigError>(ConfigError::ZeroWorkTime),
            work_time >= 60 <==> r == Err::<Tomato, ConfigError>(ConfigError::WorkTimeTooLong),
            r matches Ok(t) ==> t.wf() && t@ == (SprintState {
                work_minutes: work_time as nat,
                ..self@
            }),
            r is Ok <==> valid_minutes(work_time as int),
    {
        if work_time == 0 {
            Err(ConfigError::ZeroWorkTime)
        } else if work_time >= 60 {
            Err(ConfigError::WorkTimeTooLong)
        } else {
            Ok(self.work_time(work_time))
        }
    }

    /// The sprint with `rest_time` minutes of rest per cycle; zero minutes,
    /// or an hour or more, are rejected.
    pub fn set_rest_time(self, rest_time: u32) -> (r: Result<Tomato, ConfigError>)
        requires
            self.wf(),
        ensures
            rest_time == 0 <==> r == Err::<Tomato, ConfigError>(ConfigError::ZeroRestTime),
            rest_time >= 60 <==> r == Err::<Tomato, ConfigError>(ConfigError::RestTimeTooLong),
            r matches Ok(t) ==> t.wf() && t@ == (SprintState {
                rest_minutes: rest_time as nat,
                ..self@
            }),
            r is Ok <==> valid_minutes(rest_time as int),
    {
        if rest_time == 0 {
            Err(ConfigError::ZeroRestTime)
        } else if rest_time >= 60 {
            Err(ConfigError::RestTimeTooLong)
        } else {
            Ok(self.rest_time(rest_time))
        }
    }

    /// The sprint bounded to `cycles` cycles.
    pub fn sprint_length(self, cycles: u64) -> (r: Tomato)
        requires
            self.wf(),
        ensures
            r.wf(),
            r@ == (SprintState { length: Some(cycles as nat), ..self@ }),
    {
        Tomato { sprint_length: Some(cycles), ..self }
    }

    /// The sprint set up as a standard sprint of four cycles, from its start.
    pub fn run_sprint(self) -> (r: Tomato)
        requires
            self.wf(),
        ensures
            r.wf(),
            r@ == (SprintState {
                cycle: 0,
                length: Some(STANDARD_SPRINT_LENGTH as nat),
                step: CycleStep::Ready,
                ..self@
            }),
    {
        Tomato {
            current_tomato: 0,
            sprint_length: Some(STANDARD_SPRINT_LENGTH),
            step: CycleStep::Ready,
            ..self
        }
    }

    /// The sprint set up to run cycles with no end, from its start.
    pub fn run_indefinetely(self) -> (r: Tomato)
        requires
            self.wf(),
        ensures
            r.wf(),
            r@ == (SprintState { cycle: 0, length: None, step: CycleStep::Ready, ..self@ }),
    {
        Tomato { current_tomato: 0, sprint_length: None, step: CycleStep::Ready, ..self }
    }

    /// The number of the cycle that was started last (zero before the first).
    pub fn current_tomato(&self) -> (r: u64)
        ensures
            r == self@.cycle,
    {
        self.current_tomato
    }

    /// Whether another cycle can still be counted: the cycle counter is not
    /// at its largest value.
    pub fn can_count_cycle(&self) -> (r: bool)
        ensures
            r <==> self@.cycle < u64::MAX,
    {
        self.current_tomato < u64::MAX
    }

    /// Hands out the next directive and moves the sprint on. `last` is the
    /// outcome of the countdown that the previous directive asked for; it is
    /// read only right after such a countdown.
    pub fn next_directive(&mut self, last: Outcome) -> (d: Directive)
        requires
            old(self).wf(),
            old(self)@.cycle < u64::MAX,
        ensures
            final(self).wf(),
            d == directive_of(old(self)@, last),
            final(self)@ == sprint_next(old(self)@, last),
    {
        match self.step {
            CycleStep::Ready => {
                let over = match self.sprint_length {
                    Some(n) => self.current_tomato >= n,
                    None => false,
                };
                if over {
                    self.step = CycleStep::Closed;
                    Directive::Disconnect
                } else {
                    self.current_tomato = self.current_tomato + 1;
                    self.step = CycleStep::Announced;
                    Directive::AnnounceWork { cycle: self.current_tomato, minutes: self.work_time }
                }
            },
            CycleStep::Announced => {
                self.step = CycleStep::FirstHalf;
                let half = self.work_time as u64 * 30;
                Directive::Countdown { total_secs: half, offset_secs: half, stage: Stage::Work }
            },
            CycleStep::FirstHalf => {
                if last == Outcome::Skipped {
                    self.step = CycleStep::Resting;
                    self.rest_countdown()
                } else {
                    let observer = self.observer_pos;
                    self.observer_pos = (self.observer_pos + 1) % POOL_LEN;
                    self.step = CycleStep::Midway;
                    Directive::Midpoint { observer }
                }
            },
            CycleStep::Midway => {
                self.step = CycleStep::SecondHalf;
                let half = self.work_time as u64 * 30;
                Directive::Countdown { total_secs: half, offset_secs: 0, stage: Stage::Work }
            },
            CycleStep::SecondHalf => {
                if last == Outcome::Skipped {
                    self.step = CycleStep::Resting;
                    self.rest_countdown()
                } else {
                    let reward = self.reward_pos;
                    self.reward_pos = (self.reward_pos + 1) % POOL_LEN;
                    self.step = CycleStep::WorkDone;
                    Directive::Reward {
                        cycle: self.current_tomato,
                        reward,
                        rest_minutes: self.rest_time,
                    }
                }
            },
            CycleStep::WorkDone => {
                self.step = CycleStep::Resting;
                self.rest_countdown()
            },
            CycleStep::Resting => {
                self.step = CycleStep::Ready;
                Directive::Separator
            },
            CycleStep::Closed => Directive::Finished,
        }
    }

    fn rest_countdown(&self) -> (d: Directive)
        requires
            valid_minutes(self.rest_time as int),
        ensures
            d == (Directive::Countdown {
                total_secs: (self.rest_time * 60) as u64,
                offset_secs: 0,
                stage: Stage::Rest,
            }),
    {
        Directive::Countdown {
            total_secs: self.rest_time as u64 * 60,
            offset_secs: 0,
            stage: Stage::Rest,
        }
    }
}

/// The reward pool, in the order in which its tokens are handed out.
pub open spec fn reward_pool(i: int) -> Seq<char> {
    if i == 0 {
        "🍅"@
    } else if i == 1 {
        "🥗"@
    } else if i == 2 {
        "🍝"@
    } else {
        "🍕"@
    }
}

/// The observer pool, in the order in which its tokens are handed out.
pub open spec fn observer_pool(i: int) -> Seq<char> {
    if i == 0 {
        "👀"@
    } else if i == 1 {
        "🔫"@
    } else if i == 2 {
        "👮"@
    } else {
        "🚨"@
    }
}

/// The reward token at position `i` of its pool.
pub fn reward_token(i: usize) -> (r: &'static str)
    requires
        i < POOL_LEN,
    ensures
        r@ == reward_pool(i as int),
{
    match i {
        0 => "🍅",
        1 => "🥗",
        2 => "🍝",
        _ => "🍕",
    }
}

/// The observer token at position `i` of its pool.
pub fn observer_token(i: usize) -> (r: &'static str)
    requires
        i < POOL_LEN,
    ensures
        r@ == observer_pool(i as int),
{
    match i {
        0 => "👀",
        1 => "🔫",
        2 => "👮",
        _ => "🚨",
    }
}

} // verus!
