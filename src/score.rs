//! The score shown during play: time played and counters.
use vstd::prelude::*;

verus! {

/// The score of the current run.
#[derive(Clone, Copy, Debug, PartialEq, Eq, Structural, Default)]
pub struct ScoreStatus {
    /// Time played, in milliseconds.
    pub time_ms: u64,
    pub logs_chipped: u32,
    pub woodchips_cleared: u32,
}

/// The character of decimal digit `d`.
pub open spec fn digit_char(d: int) -> char {
    if d == 0 {
        '0'
    } else if d == 1 {
        '1'
    } else if d == 2 {
        '2'
    } else if d == 3 {
        '3'
    } else if d == 4 {
        '4'
    } else if d == 5 {
        '5'
    } else if d == 6 {
        '6'
    } else if d == 7 {
        '7'
    } else if d == 8 {
        '8'
    } else {
        '9'
    }
}

/// The decimal digits of `n`, without leading zeros.
pub open spec fn decimal(n: nat) -> Seq<char>
    decreases n,
{
    if n < 10 {
        seq![digit_char(n as int)]
    } else {
        decimal(n / 10).push(digit_char((n % 10) as int))
    }
}

/// The decimal digits of `n`, zero-padded to at least two.
pub open spec fn two_digits(n: nat) -> Seq<char> {
    if n < 10 {
        seq!['0', digit_char(n as int)]
    } else {
        decimal(n)
    }
}

/// The time `ms` as shown: whole minutes (at least two digits), a colon, and
/// the remaining seconds rounded to a tenth (two digits, a point, a tenth).
pub open spec fn time_text(ms: nat) -> Seq<char> {
    let tenths = (ms % 60000 + 50) / 100;
    two_digits(ms / 60000) + seq![':'] + two_digits(tenths / 10) + seq!['.', digit_char(
        (tenths % 10) as int,
    )]
}

fn digit(d: u64) -> (r: char)
    requires
        d < 10,
    ensures
        r == digit_char(d as int),
{
    if d == 0 {
        '0'
    } else if d == 1 {
        '1'
    } else if d == 2 {
        '2'
    } else if d == 3 {
        '3'
    } else if d == 4 {
        '4'
    } else if d == 5 {
        '5'
    } else if d == 6 {
        '6'
    } else if d == 7 {
        '7'
    } else if d == 8 {
        '8'
    } else {
        '9'
    }
}

fn push_decimal(out: &mut Vec<char>, n: u64)
    ensures
        final(out)@ == old(out)@ + decimal(n as nat),
    decreases n,
{
    if n >= 10 {
        push_decimal(out, n / 10);
    }
    out.push(digit(n % 10));
    proof {
        if n >= 10 {
            assert(final(out)@ =~= old(out)@ + decimal(n as nat));
        } else {
            assert(final(out)@ =~= old(out)@ + decimal(n as nat));
        }
    }
}

fn push_two_digits(out: &mut Vec<char>, n: u64)
    ensures
        final(out)@ == old(out)@ + two_digits(n as nat),
{
    if n < 10 {
        out.push('0');
        out.push(digit(n));
        assert(final(out)@ =~= old(out)@ + two_digits(n as nat));
    } else {
        push_decimal(out, n);
    }
}

/// Relies on `Iterator::collect` into a `String`: the string holds the
/// collected characters, in order.
#[verifier::external_body]
fn string_of(chars: &Vec<char>) -> (r: String)
    ensures
        r@ == chars@,
{
    chars.iter().collect()
}

impl ScoreStatus {
    /// A run that has just started.
    pub fn new() -> (r: ScoreStatus)
        ensures
            r == (ScoreStatus { time_ms: 0, logs_chipped: 0, woodchips_cleared: 0 }),
    {
        ScoreStatus { time_ms: 0, logs_chipped: 0, woodchips_cleared: 0 }
    }

    /// Counts `dt_ms` more milliseconds of play (saturating).
    pub fn add_time(&mut self, dt_ms: u64)
        ensures
            final(self).time_ms == if old(self).time_ms + dt_ms > u64::MAX {
                u64::MAX as int
            } else {
                old(self).time_ms + dt_ms
            },
            final(self).logs_chipped == old(self).logs_chipped,
            final(self).woodchips_cleared == old(self).woodchips_cleared,
    {
        self.time_ms = self.time_ms.saturating_add(dt_ms);
    }

    /// The time played as `MM:SS.S`.
    pub fn format_time(&self) -> (r: String)
        ensures
            r@ == time_text(self.time_ms as nat),
    {
        let ms = self.time_ms;
        let tenths: u64 = (ms % 60000 + 50) / 100;
        let mut out: Vec<char> = Vec::new();
        push_two_digits(&mut out, ms / 60000);
        out.push(':');
        push_two_digits(&mut out, tenths / 10);
        out.push('.');
        out.push(digit(tenths % 10));
        assert(out@ =~= time_text(ms as nat));
        string_of(&out)
    }
}

} // verus!
