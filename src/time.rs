use vstd::prelude::*;

verus! {

/// Seconds in one minute.
pub const MINUTE_SECS: u64 = 60;

/// The formatter accepts durations strictly below this many seconds.
pub const HOUR_SECS: u64 = 3600;

/// The character that stands for the decimal digit `d`.
pub open spec fn digit_char(d: int) -> char {
    if d == 0 {
        '0'
    } else if d == 1 {
        '1'
    } else if d == 2 {
        '2'
    } else if d == 3 {
        '3'
    } else if d == 4 {
        '4'
    } else if d == 5 {
        '5'
    } else if d == 6 {
        '6'
    } else if d == 7 {
        '7'
    } else if d == 8 {
        '8'
    } else {
        '9'
    }
}

/// `n` (below 100) written with exactly two decimal digits.
pub open spec fn two_digits(n: int) -> Seq<char> {
    seq![digit_char(n / 10), digit_char(n % 10)]
}

/// The `MM:SS` text of a reading of `minutes` and `seconds`.
pub open spec fn clock_text(minutes: int, seconds: int) -> Seq<char> {
    two_digits(minutes) + seq![':'] + two_digits(seconds)
}

/// The `MM:SS` text of a duration of `secs` seconds.
pub open spec fn clock_text_of_secs(secs: int) -> Seq<char> {
    clock_text(secs / 60, secs % 60)
}

/// A clock reading of less than one hour, split into minutes and seconds.
#[derive(Clone, Copy, Debug, PartialEq, Eq, Structural)]
pub struct Time {
    pub minutes: u32,
    pub seconds: u32,
}

impl Time {
    /// Both parts lie below sixty.
    pub open spec fn wf(self) -> bool {
        self.minutes < 60 && self.seconds < 60
    }

    /// The duration that the reading stands for, in seconds.
    pub open spec fn total_secs(self) -> int {
        self.minutes * 60 + self.seconds
    }

    /// The reading of `secs` seconds; `None` for an hour or more.
    pub fn from_secs(secs: u64) -> (r: Option<Time>)
        ensures
            r is Some <==> secs < HOUR_SECS,
            r matches Some(t) ==> t.wf() && t.total_secs() == secs && t.minutes == secs / 60
                && t.seconds == secs % 60,
    {
        if secs < HOUR_SECS {
            Some(Time { minutes: (secs / MINUTE_SECS) as u32, seconds: (secs % MINUTE_SECS) as u32 })
        } else {
            None
        }
    }

    /// The reading as `MM:SS`, each part with two digits.
    pub fn format(&self) -> (r: String)
        requires
            self.wf(),
        ensures
            r@ == clock_text(self.minutes as int, self.seconds as int),
    {
        let mut r = String::from_str(digit_text(self.minutes / 10));
        r.append(digit_text(self.minutes % 10));
        r.append(colon_text());
        r.append(digit_text(self.seconds / 10));
        r.append(digit_text(self.seconds % 10));
        proof {
            assert(r@ =~= clock_text(self.minutes as int, self.seconds as int));
        }
        r
    }
}

/// A duration of `secs` seconds written as `MM:SS`; `None` for an hour or more.
pub fn format_clock(secs: u64) -> (r: Option<String>)
    ensures
        r is Some <==> secs < HOUR_SECS,
        r matches Some(s) ==> s@ == clock_text_of_secs(secs as int),
{
    match Time::from_secs(secs) {
        Some(t) => Some(t.format()),
        None => None,
    }
}

fn colon_text() -> (r: &'static str)
    ensures
        r@ == seq![':'],
{
    proof {
        reveal_strlit(":");
    }
    ":"
}

/// The one-character text of the decimal digit `d`.
fn digit_text(d: u32) -> (r: &'static str)
    requires
        d < 10,
    ensures
        r@ == seq![digit_char(d as int)],
{
    proof {
        reveal_strlit("0");
        reveal_strlit("1");
        reveal_strlit("2");
        reveal_strlit("3");
        reveal_strlit("4");
        reveal_strlit("5");
        reveal_strlit("6");
        reveal_strlit("7");
        reveal_strlit("8");
        reveal_strlit("9");
    }
    match d {
        0 => "0",
        1 => "1",
        2 => "2",
        3 => "3",
        4 => "4",
        5 => "5",
        6 => "6",
        7 => "7",
        8 => "8",
        _ => "9",
    }
}

} // verus!
