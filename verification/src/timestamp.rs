//! Time stamps for the names of the files that a render is saved under.

use vstd::prelude::*;
use vstd::string::StringExecFns;
use chrono::Datelike;
use chrono::Timelike;
use crate::decimal::{decimal, decimal_string, digit};

verus! {

/// A moment of the calendar, to the second.
#[derive(Clone, Copy, Debug, PartialEq, Eq, Structural)]
pub struct Moment {
    pub year: i32,
    pub month: u32,
    pub day: u32,
    pub hour: u32,
    pub minute: u32,
    pub second: u32,
}

impl Moment {
    /// Whether the parts of the moment are such as a calendar and a clock
    /// show: a month from 1 to 12, a day from 1 to 31, an hour up to 23, a
    /// minute and a second up to 59.
    pub open spec fn on_the_clock(self) -> bool {
        &&& 1 <= self.month <= 12
        &&& 1 <= self.day <= 31
        &&& self.hour <= 23
        &&& self.minute <= 59
        &&& self.second <= 59
    }
}

/// Reads the clock with `chrono::Local::now` and takes the result apart
/// with `Datelike::year`, `month` and `day` and `Timelike::hour`, `minute`
/// and `second`. What comes back depends on the time of the call and on the
/// time zone of the machine; the contract claims of it what the
/// documentation of the six methods promises, the range of each part.
#[verifier::external_body]
fn local_now() -> (r: Moment)
    ensures
        r.on_the_clock(),
{
    let now = chrono::Local::now();
    Moment {
        year: now.year(),
        month: now.month(),
        day: now.day(),
        hour: now.hour(),
        minute: now.minute(),
        second: now.second(),
    }
}

/// A number in at least two decimal digits: a number below ten gets a zero
/// in front.
pub open spec fn two_digits(n: nat) -> Seq<char> {
    if n < 10 {
        seq!['0', digit(n as int)]
    } else {
        decimal(n)
    }
}

/// A year in decimal digits, with a minus sign in front of a year before
/// the year zero.
pub open spec fn year_digits(year: int) -> Seq<char> {
    if year < 0 {
        seq!['-'] + decimal((-year) as nat)
    } else {
        decimal(year as nat)
    }
}

/// The stamp of a moment: year, month and day joined by hyphens, an
/// underscore, and hour, minute and second joined by hyphens.
pub open spec fn stamp_of(moment: Moment) -> Seq<char> {
    year_digits(moment.year as int) + seq!['-'] + two_digits(moment.month as nat) + seq!['-']
        + two_digits(moment.day as nat) + seq!['_'] + two_digits(moment.hour as nat) + seq!['-']
        + two_digits(moment.minute as nat) + seq!['-'] + two_digits(moment.second as nat)
}

/// Writes a number in at least two digits.
fn two_digit_string(n: u32) -> (r: String)
    ensures
        r@ == two_digits(n as nat),
{
    if n < 10 {
        proof {
            reveal_strlit("0");
        }
        let mut r = String::from_str("0");
        r.append(decimal_string(n as usize).as_str());
        assert(r@ =~= two_digits(n as nat));
        r
    } else {
        decimal_string(n as usize)
    }
}

/// Writes the stamp of a moment, as in `2021-03-07_09-05-00`.
pub fn stamp(moment: &Moment) -> (r: String)
    ensures
        r@ == stamp_of(*moment),
{
    proof {
        reveal_strlit("-");
        reveal_strlit("_");
        assert("-"@ =~= seq!['-']);
        assert("_"@ =~= seq!['_']);
    }
    let mut r = if moment.year < 0 {
        let mut y = String::from_str("-");
        y.append(decimal_string((-(moment.year as i64)) as usize).as_str());
        y
    } else {
        decimal_string(moment.year as usize)
    };
    assert(r@ =~= year_digits(moment.year as int));
    r.append("-");
    r.append(two_digit_string(moment.month).as_str());
    r.append("-");
    r.append(two_digit_string(moment.day).as_str());
    r.append("_");
    r.append(two_digit_string(moment.hour).as_str());
    r.append("-");
    r.append(two_digit_string(moment.minute).as_str());
    r.append("-");
    r.append(two_digit_string(moment.second).as_str());
    r
}

/// A stamp of a moment on the clock has two digits for each part but the
/// year, and 19 characters in all when the year has four digits.
pub proof fn lemma_stamp_length(moment: Moment)
    requires
        moment.on_the_clock(),
        1000 <= moment.year <= 9999,
    ensures
        stamp_of(moment).len() == 19,
{
    reveal_with_fuel(decimal, 4);
}

/// The stamp of the moment at which it is called, in local time.
pub fn date_ymd_his() -> (r: String)
    ensures
        exists|moment: Moment| moment.on_the_clock() && r@ == stamp_of(moment),
{
    let now = local_now();
    stamp(&now)
}

} // verus!
