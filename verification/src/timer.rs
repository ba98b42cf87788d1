//! A timer that reports, in whole milliseconds, how long a piece of work took.
use std::time::{Duration, Instant};

use vstd::prelude::*;

use crate::text::{char_from_ascii, chars_of, push_all, string_of};

verus! {

#[verifier::external_type_specification]
#[verifier::external_body]
pub struct ExInstant(std::time::Instant);

/// Calls `Instant::now`. The result is the time of the call; nothing is
/// stated of it.
#[verifier::external_body]
fn instant_now() -> (t: Instant) {
    Instant::now()
}

/// Calls `Instant::duration_since`. The result depends on the two times,
/// which are opaque here; nothing is stated of it.
#[verifier::external_body]
fn instant_duration_since(now: &Instant, earlier: &Instant) -> (d: Duration) {
    now.duration_since(*earlier)
}

/// Calls `Duration::as_millis`: the whole milliseconds of the duration.
/// The duration is opaque here, so nothing is stated of the result.
#[verifier::external_body]
fn duration_as_millis(d: &Duration) -> (ms: u128) {
    d.as_millis()
}

/// The character of a decimal digit.
pub open spec fn digit_char(d: int) -> char {
    ((48 + d) as u32) as char
}

/// The decimal notation of `n`, without leading zeros.
pub open spec fn decimal(n: nat) -> Seq<char>
    decreases n,
{
    if n < 10 {
        seq![digit_char(n as int)]
    } else {
        decimal(n / 10).push(digit_char((n % 10) as int))
    }
}

/// How a timer shows its elapsed milliseconds: `< 0` for less than one.
pub open spec fn displayed_millis(ms: nat) -> Seq<char> {
    if ms == 0 {
        seq!['<', ' ', '0']
    } else {
        decimal(ms)
    }
}

/// The line a timer prints when it stops.
pub open spec fn timer_line(description: Seq<char>, ms: nat) -> Seq<char> {
    seq!['[', 'T', 'i', 'm', 'e', 'r', ']', ' '] + description + seq![' ', 't', 'o', 'o', 'k', ':', ' ']
        + displayed_millis(ms) + seq![' ', 'm', 's']
}

/// Appends the decimal notation of `n`.
pub fn push_decimal(out: &mut Vec<char>, n: u128)
    ensures
        final(out)@ == old(out)@ + decimal(n as nat),
    decreases n,
{
    if n >= 10 {
        push_decimal(out, n / 10);
    }
    let c = char_from_ascii((48 + n % 10) as u32);
    out.push(c);
    assert(final(out)@ == old(out)@ + decimal(n as nat)) by {
        if n >= 10 {
            assert(decimal(n as nat) == decimal((n / 10) as nat).push(digit_char((n % 10) as int)));
        }
    }
}

/// The line reported for work described by `description` that took
/// `elapsed_ms` milliseconds.
pub fn timer_report(description: &str, elapsed_ms: u128) -> (r: String)
    ensures
        r@ == timer_line(description@, elapsed_ms as nat),
{
    let mut v: Vec<char> = Vec::new();
    push_all(&mut v, &['[', 'T', 'i', 'm', 'e', 'r', ']', ' ']);
    let d = chars_of(description);
    push_all(&mut v, &d);
    push_all(&mut v, &[' ', 't', 'o', 'o', 'k', ':', ' ']);
    if elapsed_ms == 0 {
        push_all(&mut v, &['<', ' ', '0']);
    } else {
        push_decimal(&mut v, elapsed_ms);
    }
    push_all(&mut v, &[' ', 'm', 's']);
    assert(v@ =~= timer_line(description@, elapsed_ms as nat));
    string_of(&v)
}

/// Times the work from its creation until `report` is called.
pub struct ScopedTimer {
    start: Instant,
    description: String,
}

impl ScopedTimer {
    pub closed spec fn spec_description(&self) -> Seq<char> {
        self.description@
    }

    /// Starts a timer for the work described by `description`.
    pub fn new(description: &str) -> (t: Self)
        ensures
            t.spec_description() == description@,
    {
        let d = chars_of(description);
        ScopedTimer { start: instant_now(), description: string_of(&d) }
    }

    pub fn description(&self) -> (r: &str)
        ensures
            r@ == self.spec_description(),
    {
        self.description.as_str()
    }

    /// The whole milliseconds since the timer started; it depends on the clock.
    pub fn elapsed_millis(&self) -> (ms: u128) {
        let now = instant_now();
        let d = instant_duration_since(&now, &self.start);
        duration_as_millis(&d)
    }

    /// The line that reports the work's description and its elapsed time,
    /// as measured now; of every outcome of the clock it is the report of
    /// some number of milliseconds.
    pub fn report(&self) -> (r: String)
        ensures
            exists|ms: u128| r@ == timer_line(self.spec_description(), ms as nat),
    {
        let ms = self.elapsed_millis();
        let r = timer_report(self.description.as_str(), ms);
        assert(r@ == timer_line(self.spec_description(), ms as nat));
        r
    }
}

/// The number that a string of decimal digits stands for.
pub open spec fn digits_value(s: Seq<char>) -> int
    decreases s.len(),
{
    if s.len() == 0 {
        0
    } else {
        digits_value(s.drop_last()) * 10 + (s.last() as int - '0' as int)
    }
}

/// The decimal notation of a number is made of the digits `0` to `9`, has
/// no leading zero (but for zero itself), and reads back as the number.
pub proof fn law_decimal_reads_back(n: nat)
    ensures
        decimal(n).len() >= 1,
        forall|i: int| 0 <= i < decimal(n).len() ==> '0' <= #[trigger] decimal(n)[i] <= '9',
        n > 0 ==> decimal(n)[0] != '0',
        digits_value(decimal(n)) == n,
    decreases n,
{
    if n >= 10 {
        let q = n / 10;
        let r = n % 10;
        law_decimal_reads_back(q);
        assert(n == q * 10 + r) by (nonlinear_arith)
            requires
                q == n / 10,
                r == n % 10,
        ;
        let d = decimal(n);
        assert(d == decimal(q).push(digit_char(r as int)));
        assert(d.drop_last() == decimal(q));
        assert(digit_char(r as int) as int == 48 + r);
        assert forall|i: int| 0 <= i < d.len() implies '0' <= #[trigger] d[i] <= '9' by {
            if i < decimal(q).len() {
                assert(d[i] == decimal(q)[i]);
            }
        }
        assert(d[0] == decimal(q)[0]);
        assert(d.last() == digit_char(r as int));
        assert(digits_value(d) == digits_value(decimal(q)) * 10 + (d.last() as int - '0' as int));
        assert(digits_value(d) == q * 10 + r);
    } else {
        let d = decimal(n);
        assert(digit_char(n as int) as int == 48 + n);
        assert(d.drop_last() =~= seq![]);
        assert(digits_value(d.drop_last()) == 0);
        assert(d.last() == digit_char(n as int));
        assert(digits_value(d) == digits_value(d.drop_last()) * 10 + (d.last() as int - '0' as int));
    }
}

/// A timer shows `< 0` below one millisecond, else the decimal notation of
/// its milliseconds.
pub proof fn law_timer_line(description: Seq<char>, ms: nat)
    ensures
        timer_line(description, ms) == seq!['[', 'T', 'i', 'm', 'e', 'r', ']', ' '] + description + seq![
            ' ',
            't',
            'o',
            'o',
            'k',
            ':',
            ' ',
        ] + (if ms == 0 {
            seq!['<', ' ', '0']
        } else {
            decimal(ms)
        }) + seq![' ', 'm', 's'],
        ms > 0 ==> digits_value(displayed_millis(ms)) == ms,
{
    if ms > 0 {
        law_decimal_reads_back(ms);
    }
}

} // verus!
