use vstd::prelude::*;
use chrono::{Datelike, Timelike};

verus! {

/// A naive calendar date and wall-clock time, to the second.
#[derive(Clone, Copy, Debug, PartialEq, Eq, PartialOrd, Ord, Hash)]
pub struct Timestamp {
    pub year: i32,
    pub month: u32,
    pub day: u32,
    pub hour: u32,
    pub minute: u32,
    pub second: u32,
}

/// The fields that chrono reads from a `"YYYY-MM-DD HH:MM:SS"` text, if it reads it:
/// year, month, day, hour, minute and second.
pub uninterp spec fn chrono_fields(s: Seq<char>) -> Option<(int, int, int, int, int, int)>;

impl Timestamp {
    /// Every field in the range that the formatted text can show.
    pub open spec fn wf(self) -> bool {
        0 <= self.year <= 9999 && 1 <= self.month <= 12 && 1 <= self.day <= 31 && self.hour < 24
            && self.minute < 60 && self.second < 60
    }

    pub open spec fn fields(self) -> (int, int, int, int, int, int) {
        (
            self.year as int,
            self.month as int,
            self.day as int,
            self.hour as int,
            self.minute as int,
            self.second as int,
        )
    }
}

/// The text form of a digit.
pub open spec fn digit(d: int) -> char {
    if d == 0 {
        '0'
    } else if d == 1 {
        '1'
    } else if d == 2 {
        '2'
    } else if d == 3 {
        '3'
    } else if d == 4 {
        '4'
    } else if d == 5 {
        '5'
    } else if d == 6 {
        '6'
    } else if d == 7 {
        '7'
    } else if d == 8 {
        '8'
    } else {
        '9'
    }
}

/// `n` in two decimal digits, zero-padded.
pub open spec fn two_digits(n: int) -> Seq<char> {
    seq![digit(n / 10), digit(n % 10)]
}

/// `n` in four decimal digits, zero-padded.
pub open spec fn four_digits(n: int) -> Seq<char> {
    seq![digit(n / 1000), digit((n / 100) % 10), digit((n / 10) % 10), digit(n % 10)]
}

/// `DD.MM.YYYY`
pub open spec fn date_text(t: Timestamp) -> Seq<char> {
    two_digits(t.day as int) + seq!['.'] + two_digits(t.month as int) + seq!['.'] + four_digits(
        t.year as int,
    )
}

/// `HH:MM`, on a 24-hour clock.
pub open spec fn time_text(t: Timestamp) -> Seq<char> {
    two_digits(t.hour as int) + seq![':'] + two_digits(t.minute as int)
}

/// Whether `c` may stand at position `i` of `"YYYY-MM-DD HH:MM:SS"`.
pub open spec fn fits(c: char, i: int) -> bool {
    if i == 4 || i == 7 {
        c == '-'
    } else if i == 10 {
        c == ' '
    } else if i == 13 || i == 16 {
        c == ':'
    } else {
        '0' <= c && c <= '9'
    }
}

/// Whether `s` has the shape `"YYYY-MM-DD HH:MM:SS"`: nineteen characters, digits
/// but for the separators.
pub open spec fn wire_shape(s: Seq<char>) -> bool {
    s.len() == 19 && forall|i: int| 0 <= i < 19 ==> fits(#[trigger] s[i], i)
}

/// Whether `s` is a start time of the wire shape that chrono reads as a valid date and
/// time, with a year of four digits.
pub open spec fn readable(s: Seq<char>) -> bool {
    &&& wire_shape(s)
    &&& chrono_fields(s) matches Some(f) && 0 <= f.0 <= 9999
}

/// Whether the text has the shape `"YYYY-MM-DD HH:MM:SS"`.
pub fn has_wire_shape(s: &str) -> (r: bool)
    ensures
        r == wire_shape(s@),
{
    let n = s.unicode_len();
    if n != 19 {
        return false;
    }
    let mut i: usize = 0;
    while i < 19
        invariant
            n == 19,
            s@.len() == 19,
            i <= 19,
            forall|k: int| 0 <= k < i ==> fits(#[trigger] s@[k], k),
        decreases 19 - i,
    {
        let c = s.get_char(i);
        let ok = if i == 4 || i == 7 {
            c == '-'
        } else if i == 10 {
            c == ' '
        } else if i == 13 || i == 16 {
            c == ':'
        } else {
            '0' <= c && c <= '9'
        };
        if !ok {
            assert(!fits(s@[i as int], i as int));
            return false;
        }
        i = i + 1;
    }
    true
}

/// Relies on chrono's `NaiveDateTime::parse_from_str` with the format
/// `"%Y-%m-%d %H:%M:%S"`: whether it reads the text, and what, depends on the text
/// alone; a value it gives is a valid date and time, so its month, day, hour, minute
/// and second lie in their ranges.
#[verifier::external_body]
fn chrono_parse(s: &str) -> (r: Option<(i32, u32, u32, u32, u32, u32)>)
    ensures
        match r {
            None => chrono_fields(s@) is None,
            Some(f) => {
                &&& chrono_fields(s@) == Some(
                    (f.0 as int, f.1 as int, f.2 as int, f.3 as int, f.4 as int, f.5 as int),
                )
                &&& 1 <= f.1 <= 12
                &&& 1 <= f.2 <= 31
                &&& f.3 < 24
                &&& f.4 < 60
                &&& f.5 < 60
            },
        },
{
    match chrono::NaiveDateTime::parse_from_str(s, "%Y-%m-%d %H:%M:%S") {
        Ok(t) => Some((t.year(), t.month(), t.day(), t.hour(), t.minute(), t.second())),
        Err(_) => None,
    }
}

/// Reads a start time in the wire form `"YYYY-MM-DD HH:MM:SS"`: the shape is checked
/// here, the calendar by chrono.
pub fn parse_start_time(s: &str) -> (r: Option<Timestamp>)
    ensures
        r is Some <==> readable(s@),
        r is Some ==> wire_shape(s@),
        r matches Some(t) ==> t.wf() && Some(t.fields()) == chrono_fields(s@),
{
    if !has_wire_shape(s) {
        return None;
    }
    match chrono_parse(s) {
        None => None,
        Some(f) => {
            if 0 <= f.0 && f.0 <= 9999 {
                Some(
                    Timestamp { year: f.0, month: f.1, day: f.2, hour: f.3, minute: f.4, second: f.5 },
                )
            } else {
                None
            }
        },
    }
}

fn digit_str(d: u32) -> (r: &'static str)
    requires
        d < 10,
    ensures
        r@ == seq![digit(d as int)],
{
    proof {
        reveal_strlit("0");
        reveal_strlit("1");
        reveal_strlit("2");
        reveal_strlit("3");
        reveal_strlit("4");
        reveal_strlit("5");
        reveal_strlit("6");
        reveal_strlit("7");
        reveal_strlit("8");
        reveal_strlit("9");
    }
    let r = if d == 0 {
        "0"
    } else if d == 1 {
        "1"
    } else if d == 2 {
        "2"
    } else if d == 3 {
        "3"
    } else if d == 4 {
        "4"
    } else if d == 5 {
        "5"
    } else if d == 6 {
        "6"
    } else if d == 7 {
        "7"
    } else if d == 8 {
        "8"
    } else {
        "9"
    };
    assert(r@ =~= seq![digit(d as int)]);
    r
}

fn push_two_digits(out: &mut String, n: u32)
    requires
        n < 100,
    ensures
        final(out)@ == old(out)@ + two_digits(n as int),
{
    out.append(digit_str(n / 10));
    out.append(digit_str(n % 10));
    assert(final(out)@ =~= old(out)@ + two_digits(n as int));
}

impl Timestamp {
    /// The date as `DD.MM.YYYY`.
    pub fn date(&self) -> (r: String)
        requires
            self.wf(),
        ensures
            r@ == date_text(*self),
    {
        proof {
            reveal_strlit(".");
        }
        let y = self.year as u32;
        let mut out = String::new();
        push_two_digits(&mut out, self.day);
        out.append(".");
        push_two_digits(&mut out, self.month);
        out.append(".");
        out.append(digit_str(y / 1000));
        out.append(digit_str((y / 100) % 10));
        out.append(digit_str((y / 10) % 10));
        out.append(digit_str(y % 10));
        assert(out@ =~= date_text(*self));
        out
    }

    /// The time as `HH:MM`.
    pub fn time(&self) -> (r: String)
        requires
            self.wf(),
        ensures
            r@ == time_text(*self),
    {
        proof {
            reveal_strlit(":");
        }
        let mut out = String::new();
        push_two_digits(&mut out, self.hour);
        out.append(":");
        push_two_digits(&mut out, self.minute);
        assert(out@ =~= time_text(*self));
        out
    }
}

} // verus!
