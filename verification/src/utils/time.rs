//! Durations written as `HH:MM:SS`, and the calendar date recorded with a task.

use chrono::Timelike;
use vstd::prelude::*;

use crate::text::{dec_seq, is_digit, lemma_dec_digits, push_decimal, string_of};

verus! {

/// Zero padding to at least two characters, as `{:02}` writes a number.
pub open spec fn pad2(d: Seq<char>) -> Seq<char> {
    if d.len() < 2 {
        seq!['0'] + d
    } else {
        d
    }
}

/// Space padding to at least two characters, as chrono's `%e` writes a day.
pub open spec fn space_pad2(d: Seq<char>) -> Seq<char> {
    if d.len() < 2 {
        seq![' '] + d
    } else {
        d
    }
}

/// A duration in seconds written as hours, minutes and seconds, each at
/// least two digits wide and separated by `:`; the hours are not bounded.
pub open spec fn his_seq(secs: nat) -> Seq<char> {
    pad2(dec_seq(secs / 3600)) + seq![':'] + pad2(dec_seq((secs % 3600) / 60)) + seq![':']
        + pad2(dec_seq(secs % 60))
}

fn push_padded2(out: &mut Vec<char>, n: u32)
    ensures
        final(out)@ == old(out)@ + pad2(dec_seq(n as nat)),
{
    proof {
        lemma_dec_digits(n as nat);
    }
    if n < 10 {
        out.push('0');
    }
    push_decimal(out, n);
    proof {
        if n < 10 {
            assert(old(out)@.push('0') + dec_seq(n as nat) =~= old(out)@ + (seq!['0'] + dec_seq(
                n as nat,
            )));
        }
    }
}

/// Writes a number of seconds as `HH:MM:SS`.
pub fn seconds_to_his(seconds: u32) -> (r: String)
    ensures
        r@ == his_seq(seconds as nat),
{
    let mut out: Vec<char> = Vec::new();
    push_padded2(&mut out, seconds / 3600);
    out.push(':');
    push_padded2(&mut out, (seconds % 3600) / 60);
    out.push(':');
    push_padded2(&mut out, seconds % 60);
    proof {
        let a = pad2(dec_seq((seconds / 3600) as nat));
        let b = pad2(dec_seq(((seconds % 3600) / 60) as nat));
        let c = pad2(dec_seq((seconds % 60) as nat));
        assert(out@ =~= a + seq![':'] + b + seq![':'] + c);
    }
    string_of(&out)
}

/// Every character of a padded decimal number is a digit.
proof fn lemma_pad2_digits(n: nat)
    ensures
        forall|i: int| 0 <= i < pad2(dec_seq(n)).len() ==> is_digit(#[trigger] pad2(dec_seq(n))[i]),
        pad2(dec_seq(n)).len() >= 2,
{
    lemma_dec_digits(n);
    let d = dec_seq(n);
    if d.len() < 2 {
        assert forall|i: int| 0 <= i < pad2(d).len() implies is_digit(#[trigger] pad2(d)[i]) by {
            if i > 0 {
                assert(pad2(d)[i] == d[i - 1]);
            }
        }
    }
}

/// A duration written as `HH:MM:SS` holds only digits and `:`, and ends with
/// a digit.
pub proof fn lemma_his_chars(secs: nat)
    ensures
        forall|i: int|
            0 <= i < his_seq(secs).len() ==> is_digit(#[trigger] his_seq(secs)[i]) || his_seq(
                secs,
            )[i] == ':',
        his_seq(secs).len() >= 8,
        is_digit(his_seq(secs).last()),
{
    let a = pad2(dec_seq(secs / 3600));
    let b = pad2(dec_seq((secs % 3600) / 60));
    let c = pad2(dec_seq(secs % 60));
    lemma_pad2_digits(secs / 3600);
    lemma_pad2_digits((secs % 3600) / 60);
    lemma_pad2_digits(secs % 60);
    let h = his_seq(secs);
    assert(h =~= a + seq![':'] + b + seq![':'] + c);
    assert forall|i: int| 0 <= i < h.len() implies is_digit(#[trigger] h[i]) || h[i] == ':' by {
        if i < a.len() {
            assert(h[i] == a[i]);
        } else if i == a.len() {
        } else if i < a.len() + 1 + b.len() {
            assert(h[i] == b[i - a.len() - 1]);
        } else if i == a.len() + 1 + b.len() {
        } else {
            assert(h[i] == c[i - a.len() - 2 - b.len()]);
        }
    }
    assert(h.last() == c.last());
}

/// What `chrono::NaiveTime::parse_from_str` gives for a text and a format:
/// the hour, minute and second of the time it reads, or `None` where it
/// fails.
pub uninterp spec fn chrono_parse_time(s: Seq<char>, fmt: Seq<char>) -> Option<(u32, u32, u32)>;

/// `chrono::NaiveTime::parse_from_str(s, fmt)`, read through `Timelike` as
/// hour, minute and second. The contract names the result; of it, it states
/// only what chrono documents of `hour`, `minute` and `second`: hours from 0
/// to 23, minutes and seconds from 0 to 59. How the text is read is not
/// stated.
#[verifier::external_body]
fn parse_naive_time(s: &str, fmt: &str) -> (r: Option<(u32, u32, u32)>)
    ensures
        r == chrono_parse_time(s@, fmt@),
        r matches Some((h, m, x)) ==> h < 24 && m < 60 && x < 60,
{
    chrono::NaiveTime::parse_from_str(s, fmt).ok().map(|t| (t.hour(), t.minute(), t.second()))
}

/// The number of seconds since midnight of a time of day given as hour,
/// minute and second.
pub open spec fn seconds_of_time(t: Option<(u32, u32, u32)>) -> Option<int> {
    match t {
        Some((h, m, x)) => Some(h * 3600 + m * 60 + x),
        None => None,
    }
}

/// The number of seconds that a `HH:MM:SS` text stands for, as chrono reads it.
pub open spec fn parsed_seconds(s: Seq<char>) -> Option<int> {
    seconds_of_time(chrono_parse_time(s, "%H:%M:%S"@))
}

/// The number of seconds since midnight of a time of day read by chrono.
pub fn seconds_of_hms(t: Option<(u32, u32, u32)>) -> (r: Option<u32>)
    requires
        t matches Some((h, m, x)) ==> h < 24 && m < 60 && x < 60,
    ensures
        match seconds_of_time(t) {
            Some(v) => r == Some(v as u32) && v < 86400,
            None => r is None,
        },
{
    match t {
        Some((h, m, x)) => Some(h * 3600 + m * 60 + x),
        None => None,
    }
}

/// Reads a `HH:MM:SS` duration as a number of seconds, as the timelog stores
/// durations; `None` where chrono does not read it as a time of day.
pub fn parse_his(s: &str) -> (r: Option<u32>)
    ensures
        match parsed_seconds(s@) {
            Some(v) => r == Some(v as u32) && v < 86400,
            None => r is None,
        },
{
    let t = parse_naive_time(s, "%H:%M:%S");
    seconds_of_hms(t)
}

/// The English name of a month, from 1 for January to 12 for December.
pub open spec fn month_name(month: u32) -> Seq<char> {
    if month == 1 {
        "January"@
    } else if month == 2 {
        "February"@
    } else if month == 3 {
        "March"@
    } else if month == 4 {
        "April"@
    } else if month == 5 {
        "May"@
    } else if month == 6 {
        "June"@
    } else if month == 7 {
        "July"@
    } else if month == 8 {
        "August"@
    } else if month == 9 {
        "September"@
    } else if month == 10 {
        "October"@
    } else if month == 11 {
        "November"@
    } else {
        "December"@
    }
}

/// The day of the month, space-padded to two, a space, and the month's name:
/// what chrono's format `%e %B` writes for a date.
pub open spec fn day_month_text(month: u32, day: u32) -> Seq<char> {
    space_pad2(dec_seq(day as nat)) + seq![' '] + month_name(month)
}

/// Whether `chrono::NaiveDate::from_ymd_opt` accepts a year, month and day.
pub uninterp spec fn chrono_date_exists(year: i32, month: u32, day: u32) -> bool;

/// `chrono::NaiveDate::from_ymd_opt(year, month, day)` formatted with
/// `%e %B`. The contract states what chrono documents: `from_ymd_opt` gives
/// `None` for an invalid month or day (whether a date exists is named, not
/// stated), and `%e %B` writes the day space-padded to two, a space, and the
/// full month name. Other formats are refused by the `requires`, since
/// chrono's formatting panics on some of them.
#[verifier::external_body]
fn format_naive_date(year: i32, month: u32, day: u32, fmt: &str) -> (r: Option<String>)
    requires
        fmt@ == "%e %B"@,
    ensures
        r is Some == chrono_date_exists(year, month, day),
        r is Some ==> 1 <= month <= 12 && 1 <= day <= 31,
        r matches Some(t) ==> t@ == day_month_text(month, day),
{
    chrono::NaiveDate::from_ymd_opt(year, month, day).map(|d| d.format(fmt).to_string())
}

/// The date text that a new task records: the day of the month, space-padded
/// to two, and the month's name; `None` for a date that does not exist.
pub fn format_task_date(year: i32, month: u32, day: u32) -> (r: Option<String>)
    ensures
        r is Some == chrono_date_exists(year, month, day),
        r matches Some(t) ==> t@ == day_month_text(month, day) && 1 <= month <= 12 && 1 <= day
            <= 31,
{
    format_naive_date(year, month, day, "%e %B")
}

} // verus!
