//! A calendar date and time of day without time zone, as the trace tables
//! store it in their `created_at` columns.
use vstd::prelude::*;
use chrono::{Datelike, Timelike};
use crate::text::{all_digits, digits_value, lemma_digits_value_below, lemma_pow10_add, pow10};

verus! {

/// A date and time of day without time zone.
#[derive(Clone, Copy, Debug, PartialEq, Eq, Structural)]
pub struct Timestamp {
    pub year: i32,
    /// 1 to 12.
    pub month: u32,
    /// 1 to 31.
    pub day: u32,
    /// 0 to 23.
    pub hour: u32,
    /// 0 to 59.
    pub minute: u32,
    /// 0 to 59.
    pub second: u32,
    /// Nanoseconds since the whole second; 1,000,000,000 and above stand
    /// for a leap second.
    pub nanosecond: u32,
}

/// What chrono's `str::parse::<NaiveDateTime>` yields for `s`, as
/// (year, month, day, hour, minute, second, nanosecond), or `None` where it
/// returns an error.
pub uninterp spec fn naive_datetime_from_str(s: Seq<char>) -> Option<(i32, u32, u32, u32, u32, u32, u32)>;

/// `s` is a date and time written out in full, `YYYY-MM-DDTHH:MM:SS`, with
/// digits in every numeric place and nothing around it, optionally followed
/// by a `.` and one to nine digits of fraction of a second.
pub open spec fn is_plain_datetime_text(s: Seq<char>) -> bool {
    &&& s.len() == 19 || (21 <= s.len() <= 29 && s[19] == '.' && all_digits(s.subrange(20, s.len() as int)))
    &&& all_digits(s.subrange(0, 4))
    &&& s[4] == '-'
    &&& all_digits(s.subrange(5, 7))
    &&& s[7] == '-'
    &&& all_digits(s.subrange(8, 10))
    &&& s[10] == 'T'
    &&& all_digits(s.subrange(11, 13))
    &&& s[13] == ':'
    &&& all_digits(s.subrange(14, 16))
    &&& s[16] == ':'
    &&& all_digits(s.subrange(17, 19))
}

/// The fraction of a second that such a text writes after its `.`, in
/// nanoseconds: the digits read as a number of nine places (zero without a
/// fraction).
pub open spec fn written_nanos(s: Seq<char>) -> int {
    if s.len() <= 20 {
        0
    } else {
        (digits_value(s.subrange(20, s.len() as int)) * pow10((29 - s.len()) as nat)) as int
    }
}

/// The date and time that a text of `is_plain_datetime_text` shows, as
/// (year, month, day, hour, minute, second, nanosecond): each number as
/// written in its place; a written second 60 (a leap second) is second 59
/// with one more whole second counted in the nanoseconds.
pub open spec fn written_datetime(s: Seq<char>) -> (int, int, int, int, int, int, int) {
    let second = digits_value(s.subrange(17, 19)) as int;
    (
        digits_value(s.subrange(0, 4)) as int,
        digits_value(s.subrange(5, 7)) as int,
        digits_value(s.subrange(8, 10)) as int,
        digits_value(s.subrange(11, 13)) as int,
        digits_value(s.subrange(14, 16)) as int,
        if second == 60 { 59 } else { second },
        if second == 60 { written_nanos(s) + 1_000_000_000 } else { written_nanos(s) },
    )
}

/// The parts of a parsed date and time, as integers.
pub open spec fn tuple_ints(t: (i32, u32, u32, u32, u32, u32, u32)) -> (int, int, int, int, int, int, int) {
    (t.0 as int, t.1 as int, t.2 as int, t.3 as int, t.4 as int, t.5 as int, t.6 as int)
}

/// chrono's `str::parse::<chrono::NaiveDateTime>` (the `%Y-%m-%dT%H:%M:%S%.f`
/// form, which chrono's serde support also reads), handed out through the
/// `Datelike` and `Timelike` getters. The result is named; of a success the
/// contract states the getters' documented ranges and, for a text written out
/// in full, that each part is the number written in its place: chrono reads
/// four digits of year and two of each other field, keeps the hour as read
/// (split into halves of the day and joined again), reads a second 60 as 59
/// plus a leap second, and scales the fraction by the number of its digits.
/// Which other texts it accepts, and what it makes of them, is left unsaid.
#[verifier::external_body]
fn parse_naive_datetime(s: &str) -> (r: Option<(i32, u32, u32, u32, u32, u32, u32)>)
    ensures
        r == naive_datetime_from_str(s@),
        r matches Some(t) ==> 1 <= t.1 <= 12 && 1 <= t.2 <= 31 && t.3 <= 23 && t.4 <= 59
            && t.5 <= 59 && t.6 < 2_000_000_000,
        r matches Some(t) ==> (is_plain_datetime_text(s@) ==> tuple_ints(t) == written_datetime(s@)),
{
    match s.parse::<chrono::NaiveDateTime>() {
        Ok(d) => Some((d.year(), d.month(), d.day(), d.hour(), d.minute(), d.second(), d.nanosecond())),
        Err(_) => None,
    }
}

impl Timestamp {
    /// The fields hold values that a date and time can have.
    pub open spec fn wf(self) -> bool {
        &&& 1 <= self.month <= 12
        &&& 1 <= self.day <= 31
        &&& self.hour <= 23
        &&& self.minute <= 59
        &&& self.second <= 59
        &&& self.nanosecond < 2_000_000_000
    }

    /// The timestamp whose fields are the parts of `t`, in order.
    pub open spec fn from_tuple(t: (i32, u32, u32, u32, u32, u32, u32)) -> Timestamp {
        Timestamp {
            year: t.0,
            month: t.1,
            day: t.2,
            hour: t.3,
            minute: t.4,
            second: t.5,
            nanosecond: t.6,
        }
    }

    /// The timestamp whose fields are the integers of `w`, in order.
    pub open spec fn from_ints(w: (int, int, int, int, int, int, int)) -> Timestamp {
        Timestamp {
            year: w.0 as i32,
            month: w.1 as u32,
            day: w.2 as u32,
            hour: w.3 as u32,
            minute: w.4 as u32,
            second: w.5 as u32,
            nanosecond: w.6 as u32,
        }
    }

    /// The timestamp that `Timestamp::parse` gives for the text `s`: none
    /// where chrono refuses it; for a text written out in full, the date and
    /// time that it shows; otherwise what chrono makes of it.
    pub open spec fn parsed(s: Seq<char>) -> Option<Timestamp> {
        match naive_datetime_from_str(s) {
            Some(t) => Some(
                if is_plain_datetime_text(s) {
                    Timestamp::from_ints(written_datetime(s))
                } else {
                    Timestamp::from_tuple(t)
                },
            ),
            None => None,
        }
    }

    /// Reads a date and time such as `2021-10-08T12:00:00.100`, as chrono
    /// reads a `NaiveDateTime`.
    pub fn parse(s: &str) -> (r: Option<Timestamp>)
        ensures
            r == Timestamp::parsed(s@),
            r matches Some(t) ==> t.wf(),
            r matches Some(t) ==> (is_plain_datetime_text(s@) ==> t.hour == digits_value(s@.subrange(11, 13))
                && t.year == digits_value(s@.subrange(0, 4)) && t.month == digits_value(s@.subrange(5, 7))
                && t.day == digits_value(s@.subrange(8, 10)) && t.minute == digits_value(s@.subrange(14, 16))),
    {
        let r = parse_naive_datetime(s);
        proof {
            if let Some(t) = r {
                if is_plain_datetime_text(s@) {
                    assert(Timestamp::from_ints(written_datetime(s@)) == Timestamp::from_tuple(t));
                }
            }
        }
        match r {
            Some(t) => Some(
                Timestamp {
                    year: t.0,
                    month: t.1,
                    day: t.2,
                    hour: t.3,
                    minute: t.4,
                    second: t.5,
                    nanosecond: t.6,
                },
            ),
            None => None,
        }
    }
}

/// A date and time written out in full reads back as what it shows: the
/// year, month, day, hour, minute and second are the numbers written in their
/// places (a written second 60 reads as second 59 of a leap second), and the
/// nanoseconds are the written fraction of a second read to nine places.
pub proof fn lemma_parse_reads_written_fields(s: Seq<char>)
    requires
        is_plain_datetime_text(s),
        Timestamp::parsed(s) is Some,
    ensures
        ({
            let t = Timestamp::parsed(s)->0;
            let second = digits_value(s.subrange(17, 19));
            &&& t.year == digits_value(s.subrange(0, 4))
            &&& t.month == digits_value(s.subrange(5, 7))
            &&& t.day == digits_value(s.subrange(8, 10))
            &&& t.hour == digits_value(s.subrange(11, 13))
            &&& t.minute == digits_value(s.subrange(14, 16))
            &&& second <= 59 ==> t.second == second && t.nanosecond == written_nanos(s)
            &&& second == 60 ==> t.second == 59 && t.nanosecond == written_nanos(s) + 1_000_000_000
        }),
{
    lemma_digits_value_below(s.subrange(0, 4));
    lemma_digits_value_below(s.subrange(5, 7));
    lemma_digits_value_below(s.subrange(8, 10));
    lemma_digits_value_below(s.subrange(11, 13));
    lemma_digits_value_below(s.subrange(14, 16));
    lemma_digits_value_below(s.subrange(17, 19));
    assert(pow10(0) == 1);
    assert(pow10(1) == 10);
    assert(pow10(2) == 100);
    assert(pow10(3) == 1000);
    assert(pow10(4) == 10000);
    assert(pow10(5) == 100000);
    assert(pow10(6) == 1000000);
    assert(pow10(7) == 10000000);
    assert(pow10(8) == 100000000);
    assert(pow10(9) == 1000000000);
    if s.len() > 20 {
        let f = s.subrange(20, s.len() as int);
        let k = f.len();
        let rest = (29 - s.len()) as nat;
        lemma_digits_value_below(f);
        lemma_pow10_add(k, rest);
        assert(k + rest == 9);
        let v = digits_value(f) as int;
        let pk = pow10(k) as int;
        let pr = pow10(rest) as int;
        assert(v * pr <= (pk - 1) * pr) by (nonlinear_arith)
            requires
                v <= pk - 1,
                pr >= 0,
        ;
        assert((pk - 1) * pr == pk * pr - pr) by (nonlinear_arith);
        assert(pr >= 1) by {
            lemma_pow10_positive(rest);
        }
    }
}

/// Ten to any power is at least one.
proof fn lemma_pow10_positive(n: nat)
    ensures
        pow10(n) >= 1,
    decreases n,
{
    if n > 0 {
        lemma_pow10_positive((n - 1) as nat);
    }
}

} // verus!
