//! Elapsed time of a run: whole seconds from a clock reading, and their
//! rendering as `HH:MM:SS`.

use crate::numeral::{decimal, push_decimal};
use vstd::prelude::*;
use vstd::string::*;

verus! {

/// The largest number of whole seconds an elapsed time may hold.
pub const MAX_SECONDS: u64 = 9_223_372_036_854_775;

/// The largest sub-second part, in nanoseconds, that may accompany
/// [`MAX_SECONDS`].
pub const MAX_SECONDS_NANOS: u32 = 807_000_000;

/// The numeral of `n` at least two characters wide: zero-padded on the left,
/// a minus sign counting towards the width.
pub open spec fn two_digits(n: int) -> Seq<char> {
    if n < 0 {
        seq!['-'] + decimal((-n) as nat)
    } else if n < 10 {
        seq!['0'] + decimal(n as nat)
    } else {
        decimal(n as nat)
    }
}

/// The quotient of `a` by `b > 0`, rounded towards zero.
pub open spec fn quotient(a: int, b: int) -> int {
    if a >= 0 {
        a / b
    } else {
        -((-a) / b)
    }
}

/// The remainder that goes with [`quotient`]: it has the sign of `a`.
pub open spec fn remainder(a: int, b: int) -> int {
    a - b * quotient(a, b)
}

/// `seconds` as hours, minutes and seconds, each at least two digits wide and
/// separated by colons. The hours are not limited to two digits.
pub open spec fn duration_text(seconds: int) -> Seq<char> {
    two_digits(quotient(seconds, 3600)) + seq![':'] + two_digits(
        remainder(quotient(seconds, 60), 60),
    ) + seq![':'] + two_digits(remainder(seconds, 60))
}

/// The whole seconds of a clock reading of `secs` seconds and `nanos`
/// nanoseconds, where the reading is within the range of a run duration.
pub open spec fn reading_seconds(secs: u64, nanos: u32) -> Option<i64> {
    if nanos < 1_000_000_000 && (secs < MAX_SECONDS || (secs == MAX_SECONDS && nanos
        <= MAX_SECONDS_NANOS)) {
        Some(secs as i64)
    } else {
        None
    }
}

/// For a duration that is not negative, the fields are the hours, the
/// minutes within the hour and the seconds within the minute.
pub proof fn lemma_duration_text_fields(seconds: int)
    requires
        seconds >= 0,
    ensures
        duration_text(seconds) == two_digits(seconds / 3600) + seq![':'] + two_digits(
            (seconds / 60) % 60,
        ) + seq![':'] + two_digits(seconds % 60),
{
    assert(remainder(seconds, 60) == seconds % 60) by (nonlinear_arith)
        requires
            seconds >= 0,
    ;
    let minutes = seconds / 60;
    assert(remainder(quotient(seconds, 60), 60) == minutes % 60) by (nonlinear_arith)
        requires
            seconds >= 0,
            minutes == seconds / 60,
    ;
}

/// Converts a clock reading with `chrono::Duration::from_std` and takes the
/// whole seconds of the result with `num_seconds`.
///
/// `from_std` refuses a reading of more than `i64::MAX` milliseconds; for any
/// other, `num_seconds` gives back the seconds of the reading.
#[verifier::external_body]
fn whole_seconds(secs: u64, nanos: u32) -> (r: Option<i64>)
    requires
        nanos < 1_000_000_000,
    ensures
        r == reading_seconds(secs, nanos),
{
    match chrono::Duration::from_std(std::time::Duration::new(secs, nanos)) {
        Ok(delta) => Some(delta.num_seconds()),
        Err(_) => None,
    }
}

/// The whole seconds of a clock reading, or `None` where the reading is out
/// of range or `nanos` is not below one second.
pub fn elapsed_seconds(secs: u64, nanos: u32) -> (r: Option<i64>)
    ensures
        r == reading_seconds(secs, nanos),
{
    if nanos >= 1_000_000_000 {
        None
    } else {
        whole_seconds(secs, nanos)
    }
}

/// Appends `n`, at least two characters wide, to `out`.
fn push_two_digits(out: &mut String, n: i64)
    ensures
        final(out)@ == old(out)@ + two_digits(n as int),
{
    proof {
        reveal_strlit("-");
        reveal_strlit("0");
    }
    if n < 0 {
        out.append("-");
        let magnitude: u64 = ((-(n + 1)) as u64) + 1;
        push_decimal(out, magnitude);
    } else if n < 10 {
        out.append("0");
        push_decimal(out, n as u64);
    } else {
        push_decimal(out, n as u64);
    }
    assert(final(out)@ =~= old(out)@ + two_digits(n as int));
}

/// Renders a duration of `seconds` whole seconds as `HH:MM:SS`.
pub fn format_duration(seconds: i64) -> (text: String)
    ensures
        text@ == duration_text(seconds as int),
{
    proof {
        reveal_strlit(":");
    }
    let hours: i64 = seconds / 3600;
    let minutes: i64 = (seconds / 60) % 60;
    let secs: i64 = seconds % 60;
    assert(hours == quotient(seconds as int, 3600));
    assert(minutes == remainder(quotient(seconds as int, 60), 60));
    assert(secs == remainder(seconds as int, 60));
    let mut text = String::new();
    push_two_digits(&mut text, hours);
    text.append(":");
    push_two_digits(&mut text, minutes);
    text.append(":");
    push_two_digits(&mut text, secs);
    assert(text@ =~= duration_text(seconds as int));
    text
}

} // verus!
