use vstd::prelude::*;
use core::cmp::Ordering;
use crate::timestamp::Timestamp;

verus! {

pub open spec fn int_order(a: int, b: int) -> Ordering {
    if a < b {
        Ordering::Less
    } else if a > b {
        Ordering::Greater
    } else {
        Ordering::Equal
    }
}

/// `first`, unless it is `Equal`, in which case `second` decides.
pub open spec fn then_order(first: Ordering, second: Ordering) -> Ordering {
    if first == Ordering::Equal {
        second
    } else {
        first
    }
}

pub open spec fn reversed(o: Ordering) -> Ordering {
    match o {
        Ordering::Less => Ordering::Greater,
        Ordering::Equal => Ordering::Equal,
        Ordering::Greater => Ordering::Less,
    }
}

/// Lexicographic order of texts, character by character; a proper prefix comes first.
pub open spec fn text_order(a: Seq<char>, b: Seq<char>) -> Ordering
    decreases a.len(),
{
    if a.len() == 0 && b.len() == 0 {
        Ordering::Equal
    } else if a.len() == 0 {
        Ordering::Less
    } else if b.len() == 0 {
        Ordering::Greater
    } else if a[0] < b[0] {
        Ordering::Less
    } else if a[0] > b[0] {
        Ordering::Greater
    } else {
        text_order(a.drop_first(), b.drop_first())
    }
}

/// Chronological order of timestamps.
pub open spec fn timestamp_order(a: Timestamp, b: Timestamp) -> Ordering {
    then_order(
        int_order(a.year as int, b.year as int),
        then_order(
            int_order(a.month as int, b.month as int),
            then_order(
                int_order(a.day as int, b.day as int),
                then_order(
                    int_order(a.hour as int, b.hour as int),
                    then_order(
                        int_order(a.minute as int, b.minute as int),
                        int_order(a.second as int, b.second as int),
                    ),
                ),
            ),
        ),
    )
}

/// A missing text comes before any present one.
pub open spec fn optional_text_order(a: Option<Seq<char>>, b: Option<Seq<char>>) -> Ordering {
    match (a, b) {
        (None, None) => Ordering::Equal,
        (None, Some(_)) => Ordering::Less,
        (Some(_), None) => Ordering::Greater,
        (Some(x), Some(y)) => text_order(x, y),
    }
}

/// `false` comes before `true`.
pub open spec fn flag_order(a: bool, b: bool) -> Ordering {
    if a == b {
        Ordering::Equal
    } else if !a {
        Ordering::Less
    } else {
        Ordering::Greater
    }
}

fn compare_ints(a: i64, b: i64) -> (r: Ordering)
    ensures
        r == int_order(a as int, b as int),
{
    if a < b {
        Ordering::Less
    } else if a > b {
        Ordering::Greater
    } else {
        Ordering::Equal
    }
}

fn then_compare(first: Ordering, second: Ordering) -> (r: Ordering)
    ensures
        r == then_order(first, second),
{
    match first {
        Ordering::Equal => second,
        _ => first,
    }
}

/// Compares two timestamps in time.
pub fn compare_timestamps(a: &Timestamp, b: &Timestamp) -> (r: Ordering)
    ensures
        r == timestamp_order(*a, *b),
{
    let seconds = compare_ints(a.second as i64, b.second as i64);
    let minutes = then_compare(compare_ints(a.minute as i64, b.minute as i64), seconds);
    let hours = then_compare(compare_ints(a.hour as i64, b.hour as i64), minutes);
    let days = then_compare(compare_ints(a.day as i64, b.day as i64), hours);
    let months = then_compare(compare_ints(a.month as i64, b.month as i64), days);
    then_compare(compare_ints(a.year as i64, b.year as i64), months)
}

/// Compares two texts lexicographically.
pub fn compare_text(a: &str, b: &str) -> (r: Ordering)
    ensures
        r == text_order(a@, b@),
{
    let n = a.unicode_len();
    let m = b.unicode_len();
    let mut i: usize = 0;
    assert(a@.subrange(0, n as int) =~= a@);
    assert(b@.subrange(0, m as int) =~= b@);
    while i < n && i < m
        invariant
            n == a@.len(),
            m == b@.len(),
            i <= n,
            i <= m,
            text_order(a@, b@) == text_order(a@.subrange(i as int, n as int), b@.subrange(i as int, m as int)),
        decreases n - i,
    {
        let x = a.get_char(i);
        let y = b.get_char(i);
        if x < y {
            return Ordering::Less;
        } else if x > y {
            return Ordering::Greater;
        }
        assert(a@.subrange(i as int, n as int).drop_first() =~= a@.subrange(i + 1, n as int));
        assert(b@.subrange(i as int, m as int).drop_first() =~= b@.subrange(i + 1, m as int));
        i = i + 1;
    }
    if i == n && i == m {
        Ordering::Equal
    } else if i == n {
        Ordering::Less
    } else {
        Ordering::Greater
    }
}

/// Compares two optional texts; a missing one comes first.
pub fn compare_optional_text(a: &Option<String>, b: &Option<String>) -> (r: Ordering)
    ensures
        r == optional_text_order(
            match *a { Some(s) => Some(s@), None => None },
            match *b { Some(s) => Some(s@), None => None },
        ),
{
    match (a, b) {
        (None, None) => Ordering::Equal,
        (None, Some(_)) => Ordering::Less,
        (Some(_), None) => Ordering::Greater,
        (Some(x), Some(y)) => compare_text(x.as_str(), y.as_str()),
    }
}

/// Compares two flags; `false` comes first.
pub fn compare_flags(a: bool, b: bool) -> (r: Ordering)
    ensures
        r == flag_order(a, b),
{
    if a == b {
        Ordering::Equal
    } else if !a {
        Ordering::Less
    } else {
        Ordering::Greater
    }
}

pub proof fn lemma_text_order_reversed(a: Seq<char>, b: Seq<char>)
    ensures
        text_order(b, a) == reversed(text_order(a, b)),
        text_order(a, a) == Ordering::Equal,
    decreases a.len(),
{
    if a.len() > 0 && b.len() > 0 {
        lemma_text_order_reversed(a.drop_first(), b.drop_first());
    }
    if a.len() > 0 {
        lemma_text_order_reversed(a.drop_first(), a.drop_first());
    }
}

} // verus!
