use vstd::prelude::*;
use crate::time::{Time, HOUR_SECS};

verus! {

/// Which period a countdown belongs to; fixed for the life of the countdown.
#[derive(Clone, Copy, Debug, PartialEq, Eq, Structural)]
pub enum Stage {
    Work,
    Rest,
}

impl Stage {
    /// The label shown in front of the clock on the terminal.
    pub fn label(&self) -> (r: &'static str)
        ensures
            r@ == stage_label(*self),
    {
        match self {
            Stage::Work => "[Work]",
            Stage::Rest => "[Rest]",
        }
    }
}

/// The terminal label of each stage.
pub open spec fn stage_label(stage: Stage) -> Seq<char> {
    match stage {
        Stage::Work => "[Work]"@,
        Stage::Rest => "[Rest]"@,
    }
}

/// What woke the engine up: the tick deadline passed with no input, or a
/// control line arrived and was classified.
#[derive(Clone, Copy, Debug, PartialEq, Eq, Structural)]
pub enum Signal {
    Deadline,
    Skip,
    Other,
}

/// Where a countdown stands.
#[derive(Clone, Copy, Debug, PartialEq, Eq, Structural)]
pub enum Phase {
    Running,
    Paused,
    Skipped,
    Completed,
}

/// How a finished countdown ended.
#[derive(Clone, Copy, Debug, PartialEq, Eq, Structural)]
pub enum Outcome {
    Completed,
    Skipped,
}

/// What the driver of a countdown has to do after handing it a signal.
#[derive(Clone, Copy, Debug, PartialEq, Eq, Structural)]
pub enum Action {
    /// One second passed: redraw the running line and report `Running`.
    Redraw,
    /// The countdown paused: print the paused line and report `Paused`.
    Pause,
    /// The countdown resumed: redraw the running line and report `Running`.
    Resume,
    /// The countdown was skipped: print the skipped line; report nothing more.
    Skip,
    /// The countdown reached zero.
    Complete,
    /// Nothing changed.
    Ignore,
}

/// The abstract state of a countdown.
pub ghost struct EngineState {
    pub remaining: nat,
    pub offset: nat,
    pub stage: Stage,
    pub phase: Phase,
}

/// The control word that skips the current countdown.
pub open spec fn skip_keyword() -> Seq<char> {
    seq!['s', 'k', 'i', 'p']
}

/// `line` holds the skip keyword somewhere.
pub open spec fn has_skip_keyword(line: Seq<char>) -> bool {
    exists|i: int|
        0 <= i && i + 4 <= line.len() && #[trigger] line.subrange(i, i + 4) == skip_keyword()
}

/// The signal that a control line stands for.
pub open spec fn signal_of_line(line: Seq<char>) -> Signal {
    if has_skip_keyword(line) {
        Signal::Skip
    } else {
        Signal::Other
    }
}

/// A well-formed state: the displayed time stays below an hour, a running or
/// paused countdown has time left and a completed one has none.
pub open spec fn engine_wf(s: EngineState) -> bool {
    &&& s.remaining + s.offset < HOUR_SECS
    &&& s.phase == Phase::Running ==> s.remaining > 0
    &&& s.phase == Phase::Paused ==> s.remaining > 0
    &&& s.phase == Phase::Completed ==> s.remaining == 0
}

/// The state in which a countdown of `total` seconds starts.
pub open spec fn initial_state(total: nat, offset: nat, stage: Stage) -> EngineState {
    EngineState {
        remaining: total,
        offset,
        stage,
        phase: if total == 0 { Phase::Completed } else { Phase::Running },
    }
}

/// The state after one signal.
pub open spec fn step(s: EngineState, sig: Signal) -> EngineState {
    match s.phase {
        Phase::Running => match sig {
            Signal::Deadline => if s.remaining <= 1 {
                EngineState { remaining: 0, phase: Phase::Completed, ..s }
            } else {
                EngineState { remaining: (s.remaining - 1) as nat, ..s }
            },
            Signal::Skip => EngineState { phase: Phase::Skipped, ..s },
            Signal::Other => EngineState { phase: Phase::Paused, ..s },
        },
        Phase::Paused => match sig {
            Signal::Deadline => s,
            Signal::Skip => EngineState { phase: Phase::Skipped, ..s },
            Signal::Other => EngineState { phase: Phase::Running, ..s },
        },
        _ => s,
    }
}

/// What the driver has to do when `sig` reaches a countdown in state `s`.
pub open spec fn action_of(s: EngineState, sig: Signal) -> Action {
    match s.phase {
        Phase::Running => match sig {
            Signal::Deadline => if s.remaining <= 1 {
                Action::Complete
            } else {
                Action::Redraw
            },
            Signal::Skip => Action::Skip,
            Signal::Other => Action::Pause,
        },
        Phase::Paused => match sig {
            Signal::Deadline => Action::Ignore,
            Signal::Skip => Action::Skip,
            Signal::Other => Action::Resume,
        },
        _ => Action::Ignore,
    }
}

/// The state after a whole sequence of signals, in order.
pub open spec fn run(s: EngineState, sigs: Seq<Signal>) -> EngineState
    decreases sigs.len(),
{
    if sigs.len() == 0 {
        s
    } else {
        run(step(s, sigs[0]), sigs.drop_first())
    }
}

/// `k` deadlines in a row: `k` seconds with no control input.
pub open spec fn deadlines(k: nat) -> Seq<Signal> {
    Seq::new(k, |i: int| Signal::Deadline)
}

/// The outcome of a countdown in state `s`, once it has ended.
pub open spec fn outcome_of(s: EngineState) -> Option<Outcome> {
    match s.phase {
        Phase::Completed => Some(Outcome::Completed),
        Phase::Skipped => Some(Outcome::Skipped),
        _ => None,
    }
}

/// `n` pause-or-resume lines in a row, twice over: `n` pauses each followed by
/// its resume.
pub open spec fn pause_resume_pairs(n: nat) -> Seq<Signal> {
    Seq::new(2 * n, |i: int| Signal::Other)
}

/// Running a sequence of signals in two pieces is running it whole.
pub proof fn lemma_run_append(s: EngineState, a: Seq<Signal>, b: Seq<Signal>)
    ensures
        run(s, a + b) == run(run(s, a), b),
    decreases a.len(),
{
    if a.len() == 0 {
        assert(a + b =~= b);
    } else {
        assert((a + b).drop_first() =~= a.drop_first() + b);
        assert((a + b)[0] == a[0]);
        lemma_run_append(step(s, a[0]), a.drop_first(), b);
    }
}

/// Running a single signal is one step.
pub proof fn lemma_run_one(s: EngineState, sig: Signal)
    ensures
        run(s, seq![sig]) == step(s, sig),
{
    assert(seq![sig].drop_first() =~= Seq::<Signal>::empty());
    reveal_with_fuel(run, 2);
}

/// An ended countdown ignores every later signal.
pub proof fn lemma_ended_countdown_stays(s: EngineState, sigs: Seq<Signal>)
    requires
        s.phase == Phase::Skipped || s.phase == Phase::Completed,
    ensures
        run(s, sigs) == s,
    decreases sigs.len(),
{
    if sigs.len() > 0 {
        lemma_ended_countdown_stays(step(s, sigs[0]), sigs.drop_first());
    }
}

/// No time passes while a countdown is paused.
pub proof fn lemma_paused_ignores_deadlines(s: EngineState, k: nat)
    requires
        s.phase == Phase::Paused,
    ensures
        run(s, deadlines(k)) == s,
    decreases k,
{
    if k > 0 {
        assert(deadlines(k).drop_first() =~= deadlines((k - 1) as nat));
        lemma_paused_ignores_deadlines(s, (k - 1) as nat);
    }
}

/// Each deadline takes exactly one second off a running countdown, which
/// completes on the deadline that takes its last second.
pub proof fn lemma_deadlines_count_down(s: EngineState, k: nat)
    requires
        s.phase == Phase::Running,
        0 < k <= s.remaining,
    ensures
        k < s.remaining ==> run(s, deadlines(k)) == (EngineState {
            remaining: (s.remaining - k) as nat,
            ..s
        }),
        k == s.remaining ==> run(s, deadlines(k)) == (EngineState {
            remaining: 0,
            phase: Phase::Completed,
            ..s
        }),
    decreases k,
{
    assert(deadlines(k)[0] == Signal::Deadline);
    assert(deadlines(k).drop_first() =~= deadlines((k - 1) as nat));
    let t = step(s, Signal::Deadline);
    if k == 1 {
        assert(deadlines(0) =~= Seq::<Signal>::empty());
    } else {
        lemma_deadlines_count_down(t, (k - 1) as nat);
    }
}

/// With no control input, a countdown of `minutes` whole minutes takes one
/// second off per deadline: it is still running, with `minutes * 60 - k`
/// seconds left, after `k < minutes * 60` deadlines, and it completes on
/// deadline `minutes * 60` exactly.
pub proof fn lemma_uninterrupted_countdown_completes(minutes: nat, offset: nat, stage: Stage)
    requires
        0 < minutes < 60,
    ensures
        forall|k: nat|
            0 < k < minutes * 60 ==> #[trigger] run(
                initial_state(minutes * 60, offset, stage),
                deadlines(k),
            ) == (EngineState {
                remaining: (minutes * 60 - k) as nat,
                offset,
                stage,
                phase: Phase::Running,
            }),
        run(initial_state(minutes * 60, offset, stage), deadlines(minutes * 60)) == (EngineState {
            remaining: 0,
            offset,
            stage,
            phase: Phase::Completed,
        }),
        outcome_of(run(initial_state(minutes * 60, offset, stage), deadlines(minutes * 60)))
            == Some(Outcome::Completed),
{
    let s = initial_state(minutes * 60, offset, stage);
    assert forall|k: nat| 0 < k < minutes * 60 implies #[trigger] run(s, deadlines(k)) == (
    EngineState { remaining: (minutes * 60 - k) as nat, offset, stage, phase: Phase::Running })
        by {
        lemma_deadlines_count_down(s, k);
    }
    lemma_deadlines_count_down(s, minutes * 60);
}

/// A skip line ends a running or paused countdown at once as skipped, with
/// the time it had left when the line came; nothing after it changes that.
pub proof fn lemma_skip_keeps_remaining(s: EngineState, later: Seq<Signal>)
    requires
        s.phase == Phase::Running || s.phase == Phase::Paused,
    ensures
        step(s, Signal::Skip) == (EngineState { phase: Phase::Skipped, ..s }),
        action_of(s, Signal::Skip) == Action::Skip,
        run(s, seq![Signal::Skip] + later) == (EngineState { phase: Phase::Skipped, ..s }),
        outcome_of(run(s, seq![Signal::Skip] + later)) == Some(Outcome::Skipped),
{
    lemma_run_append(s, seq![Signal::Skip], later);
    lemma_run_one(s, Signal::Skip);
    lemma_ended_countdown_stays(step(s, Signal::Skip), later);
}

/// A pause and its resume, however many deadlines pass in between, leave a
/// running countdown exactly as it was: no second is lost or counted twice.
pub proof fn lemma_pause_loses_no_time(s: EngineState, k: nat)
    requires
        s.phase == Phase::Running,
    ensures
        run(s, seq![Signal::Other] + deadlines(k) + seq![Signal::Other]) == s,
{
    let p = step(s, Signal::Other);
    lemma_run_append(s, seq![Signal::Other] + deadlines(k), seq![Signal::Other]);
    lemma_run_append(s, seq![Signal::Other], deadlines(k));
    lemma_run_one(s, Signal::Other);
    lemma_paused_ignores_deadlines(p, k);
    lemma_run_one(p, Signal::Other);
}

/// Any number of pause-and-resume pairs, anywhere in a sequence of signals,
/// leave the final state, and so the outcome, as it would be without them.
pub proof fn lemma_pause_resume_pairs_are_neutral(
    s: EngineState,
    before: Seq<Signal>,
    n: nat,
    after: Seq<Signal>,
)
    ensures
        run(s, before + pause_resume_pairs(n) + after) == run(s, before + after),
        outcome_of(run(s, before + pause_resume_pairs(n) + after)) == outcome_of(
            run(s, before + after),
        ),
{
    lemma_run_append(s, before + pause_resume_pairs(n), after);
    lemma_run_append(s, before, pause_resume_pairs(n));
    lemma_pairs_return(run(s, before), n);
    lemma_run_append(s, before, after);
}

/// Pause-and-resume pairs bring any state back to itself.
proof fn lemma_pairs_return(s: EngineState, n: nat)
    ensures
        run(s, pause_resume_pairs(n)) == s,
    decreases n,
{
    if n > 0 {
        let pair = seq![Signal::Other, Signal::Other];
        assert(pause_resume_pairs(n) =~= pair + pause_resume_pairs((n - 1) as nat));
        lemma_run_append(s, pair, pause_resume_pairs((n - 1) as nat));
        assert(pair =~= seq![Signal::Other] + seq![Signal::Other]);
        lemma_run_append(s, seq![Signal::Other], seq![Signal::Other]);
        lemma_run_one(s, Signal::Other);
        lemma_run_one(step(s, Signal::Other), Signal::Other);
        lemma_pairs_return(s, (n - 1) as nat);
    }
}

/// One countdown over a fixed number of seconds, with an extra amount added
/// to the time it displays.
pub struct Countdown {
    remaining: u64,
    offset: u64,
    stage: Stage,
    phase: Phase,
}

impl View for Countdown {
    type V = EngineState;

    closed spec fn view(&self) -> EngineState {
        EngineState {
            remaining: self.remaining as nat,
            offset: self.offset as nat,
            stage: self.stage,
            phase: self.phase,
        }
    }
}

impl Countdown {
    /// A countdown of `total` seconds that displays `offset` seconds more
    /// than it has left; one of zero seconds is completed from the start.
    pub fn start(total: u64, offset: u64, stage: Stage) -> (r: Countdown)
        requires
            total + offset < HOUR_SECS,
        ensures
            r@ == initial_state(total as nat, offset as nat, stage),
            engine_wf(r@),
    {
        Countdown {
            remaining: total,
            offset,
            stage,
            phase: if total == 0 { Phase::Completed } else { Phase::Running },
        }
    }

    /// Seconds left to count down.
    pub fn remaining_secs(&self) -> (r: u64)
        ensures
            r == self@.remaining,
    {
        self.remaining
    }

    pub fn stage(&self) -> (r: Stage)
        ensures
            r == self@.stage,
    {
        self.stage
    }

    pub fn phase(&self) -> (r: Phase)
        ensures
            r == self@.phase,
    {
        self.phase
    }

    /// How the countdown ended, or `None` while it runs or is paused.
    pub fn outcome(&self) -> (r: Option<Outcome>)
        ensures
            r == outcome_of(self@),
    {
        match self.phase {
            Phase::Completed => Some(Outcome::Completed),
            Phase::Skipped => Some(Outcome::Skipped),
            _ => None,
        }
    }

    /// The time on display: what is left plus the display offset.
    pub fn display_time(&self) -> (r: Time)
        requires
            engine_wf(self@),
        ensures
            r.wf(),
            r.total_secs() == self@.remaining + self@.offset,
    {
        let t = Time::from_secs(self.remaining + self.offset);
        t.unwrap()
    }

    /// Moves the countdown on by one signal and says what the driver must do.
    pub fn handle(&mut self, sig: Signal) -> (a: Action)
        requires
            engine_wf(old(self)@),
        ensures
            final(self)@ == step(old(self)@, sig),
            a == action_of(old(self)@, sig),
            engine_wf(final(self)@),
    {
        match self.phase {
            Phase::Running => match sig {
                Signal::Deadline => {
                    if self.remaining <= 1 {
                        self.remaining = 0;
                        self.phase = Phase::Completed;
                        Action::Complete
                    } else {
                        self.remaining = self.remaining - 1;
                        Action::Redraw
                    }
                },
                Signal::Skip => {
                    self.phase = Phase::Skipped;
                    Action::Skip
                },
                Signal::Other => {
                    self.phase = Phase::Paused;
                    Action::Pause
                },
            },
            Phase::Paused => match sig {
                Signal::Deadline => Action::Ignore,
                Signal::Skip => {
                    self.phase = Phase::Skipped;
                    Action::Skip
                },
                Signal::Other => {
                    self.phase = Phase::Running;
                    Action::Resume
                },
            },
            _ => Action::Ignore,
        }
    }

    /// Hands the countdown each signal of `signals` in order, and returns how
    /// it ended, if it did.
    pub fn feed(&mut self, signals: &[Signal]) -> (r: Option<Outcome>)
        requires
            engine_wf(old(self)@),
        ensures
            final(self)@ == run(old(self)@, signals@),
            engine_wf(final(self)@),
            r == outcome_of(final(self)@),
    {
        let n = signals.len();
        let mut i: usize = 0;
        proof {
            assert(signals@.take(0) =~= Seq::<Signal>::empty());
        }
        while i < n
            invariant
                n == signals@.len(),
                i <= n,
                engine_wf(self@),
                self@ == run(old(self)@, signals@.take(i as int)),
            decreases n - i,
        {
            proof {
                assert(signals@.take(i + 1) =~= signals@.take(i as int) + seq![signals@[i as int]]);
                lemma_run_append(old(self)@, signals@.take(i as int), seq![signals@[i as int]]);
                lemma_run_one(self@, signals@[i as int]);
            }
            self.handle(signals[i]);
            i = i + 1;
        }
        proof {
            assert(signals@.take(n as int) =~= signals@);
        }
        self.outcome()
    }
}

/// Classifies a control line: the skip keyword anywhere in it skips,
/// anything else (an empty line too) pauses or resumes.
pub fn classify_line(line: &str) -> (r: Signal)
    ensures
        r == signal_of_line(line@),
{
    let n = line.unicode_len();
    if n < 4 {
        assert(!has_skip_keyword(line@));
        return Signal::Other;
    }
    let mut i: usize = 0;
    while i <= n - 4
        invariant
            n == line@.len(),
            n >= 4,
            forall|j: int| 0 <= j < i ==> #[trigger] line@.subrange(j, j + 4) != skip_keyword(),
        decreases n - i,
    {
        if line.get_char(i) == 's' && line.get_char(i + 1) == 'k' && line.get_char(i + 2) == 'i'
            && line.get_char(i + 3) == 'p' {
            assert(line@.subrange(i as int, i + 4) =~= skip_keyword());
            return Signal::Skip;
        }
        assert(line@.subrange(i as int, i + 4)[0] == line@[i as int]);
        assert(line@.subrange(i as int, i + 4)[1] == line@[i + 1]);
        assert(line@.subrange(i as int, i + 4)[2] == line@[i + 2]);
        assert(line@.subrange(i as int, i + 4)[3] == line@[i + 3]);
        i = i + 1;
    }
    Signal::Other
}

} // verus!
