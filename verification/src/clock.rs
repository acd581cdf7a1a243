use vstd::prelude::*;
use crate::strings::string_of;

verus! {

/// The decimal digits of `n`.
pub open spec fn decimal(n: nat) -> Seq<char>
    decreases n,
{
    if n < 10 {
        seq![digit_char(n)]
    } else {
        decimal(n / 10).push(digit_char(n % 10))
    }
}

pub open spec fn digit_char(d: nat) -> char {
    ((d + 48) as u32) as char
}

/// `n` written with at least two digits.
pub open spec fn two_digits(n: nat) -> Seq<char> {
    if n < 10 {
        seq!['0', digit_char(n)]
    } else {
        decimal(n)
    }
}

/// A time shown as minutes and seconds, as `{:02}:{:02}`.
pub open spec fn clock_text(secs: nat) -> Seq<char> {
    two_digits(secs / 60) + seq![':'] + two_digits(secs % 60)
}

fn digit(d: u64) -> (c: char)
    requires
        d < 10,
    ensures
        c == digit_char(d as nat),
{
    match d {
        0 => '0',
        1 => '1',
        2 => '2',
        3 => '3',
        4 => '4',
        5 => '5',
        6 => '6',
        7 => '7',
        8 => '8',
        _ => '9',
    }
}

fn push_decimal(out: &mut Vec<char>, n: u64)
    ensures
        final(out)@ == old(out)@ + decimal(n as nat),
    decreases n,
{
    if n < 10 {
        out.push(digit(n));
    } else {
        push_decimal(out, n / 10);
        out.push(digit(n % 10));
        assert(old(out)@ + decimal(n as nat) =~= old(out)@ + decimal((n / 10) as nat) + seq![digit_char((n % 10) as nat)]);
    }
}

fn push_two_digits(out: &mut Vec<char>, n: u64)
    ensures
        final(out)@ == old(out)@ + two_digits(n as nat),
{
    if n < 10 {
        out.push('0');
        out.push(digit(n));
        assert(old(out)@.push('0').push(digit_char(n as nat)) =~= old(out)@ + two_digits(n as nat));
    } else {
        push_decimal(out, n);
    }
}

/// A clock showing a duration, in seconds.
#[derive(Clone, Copy, Debug, PartialEq, Eq, Structural, Default)]
pub struct ClockWidget {
    pub duration: u64,
}

impl ClockWidget {
    pub fn new(duration: u64) -> (r: ClockWidget)
        ensures
            r.duration == duration,
    {
        ClockWidget { duration }
    }

    /// The text the clock shows: minutes and seconds on two digits each.
    pub fn time_str(&self) -> (r: String)
        ensures
            r@ == clock_text(self.duration as nat),
    {
        let seconds = self.duration % 60;
        let minutes = (self.duration - seconds) / 60;
        assert(minutes == self.duration / 60) by (nonlinear_arith)
            requires
                seconds == self.duration % 60,
                minutes == (self.duration - seconds) / 60,
        ;
        let mut out: Vec<char> = Vec::new();
        push_two_digits(&mut out, minutes);
        out.push(':');
        push_two_digits(&mut out, seconds);
        assert(out@ =~= clock_text(self.duration as nat));
        string_of(&out)
    }
}

} // verus!
