use vstd::prelude::*;
use crate::text::{
    clean_description, cleaned, ends_with_marker, has_marker, is_white, lemma_cleaned_is_clean,
    lemma_trimmed_idempotent, trim, trim_back, trim_front, trimmed,
};
use crate::order::{
    compare_flags, compare_optional_text, compare_text, compare_timestamps, flag_order,
    lemma_text_order_reversed, optional_text_order, reversed, text_order, then_order,
    timestamp_order,
};
use core::cmp::Ordering;
use crate::timestamp::{
    chrono_fields, date_text, parse_start_time, readable, time_text, Timestamp,
};

verus! {

/// How a programme is shown: exactly one of these holds of a listing.
#[derive(Clone, Copy, Debug, PartialEq, Eq, Structural)]
pub enum Status {
    Live,
    Repeat,
    Standard,
}

/// Why a schedule could not be had.
#[derive(Clone, Copy, Debug, PartialEq, Eq, Structural)]
pub enum ScheduleError {
    /// The request failed, or the server answered with a status other than success.
    Transport,
    /// The body is not JSON, or has no `results` array of records.
    Decode,
    /// A record lacks a required field, or its start time is not a valid
    /// `"YYYY-MM-DD HH:MM:SS"`.
    FieldParse,
}

/// One record of the `results` array as it comes over the wire; a field is `None`
/// where the record lacks it (or, for the description, holds `null`).
#[derive(Debug)]
pub struct WireListing {
    pub start_time: Option<String>,
    pub title: Option<String>,
    pub description: Option<String>,
    pub live: Option<bool>,
}

/// One scheduled programme.
#[derive(Debug)]
pub struct Listing {
    title: String,
    start_time: Timestamp,
    description: Option<String>,
    live: bool,
}

/// What a listing holds, as mathematical values.
pub struct ListingView {
    pub title: Seq<char>,
    pub start_time: Timestamp,
    pub description: Option<Seq<char>>,
    pub live: bool,
}

pub open spec fn text_view(t: Option<String>) -> Option<Seq<char>> {
    match t {
        Some(s) => Some(s@),
        None => None,
    }
}

impl View for Listing {
    type V = ListingView;

    closed spec fn view(&self) -> ListingView {
        ListingView {
            title: self.title@,
            start_time: self.start_time,
            description: text_view(self.description),
            live: self.live,
        }
    }
}

/// The timestamp made of the fields that chrono read.
pub open spec fn timestamp_of(f: (int, int, int, int, int, int)) -> Timestamp {
    Timestamp {
        year: f.0 as i32,
        month: f.1 as u32,
        day: f.2 as u32,
        hour: f.3 as u32,
        minute: f.4 as u32,
        second: f.5 as u32,
    }
}

/// Whether a wire record has every required field and a readable start time.
pub open spec fn valid_record(w: WireListing) -> bool {
    &&& w.start_time matches Some(t) && readable(t@)
    &&& w.title is Some
    &&& w.live is Some
}

/// The listing that a valid wire record stands for.
pub open spec fn listing_of(w: WireListing) -> ListingView {
    ListingView {
        title: w.title->Some_0@,
        start_time: timestamp_of(chrono_fields(w.start_time->Some_0@)->Some_0),
        description: text_view(w.description),
        live: w.live->Some_0,
    }
}

/// Whether a raw description marks a repeat broadcast.
pub open spec fn marks_repeat(d: Option<Seq<char>>) -> bool {
    d matches Some(s) && ends_with_marker(trimmed(s))
}

/// The description as displayed: trimmed, without the repeat marker, trimmed again.
pub open spec fn shown_description(d: Option<Seq<char>>) -> Seq<char> {
    match d {
        Some(s) => cleaned(s),
        None => seq![],
    }
}

/// Whether a raw description has anything to show.
pub open spec fn described(d: Option<Seq<char>>) -> bool {
    d matches Some(s) && trimmed(s).len() > 0
}

pub open spec fn status_of(live: bool, d: Option<Seq<char>>) -> Status {
    if live {
        Status::Live
    } else if marks_repeat(d) {
        Status::Repeat
    } else {
        Status::Standard
    }
}

fn clone_text(t: &Option<String>) -> (r: Option<String>)
    ensures
        text_view(r) == text_view(*t),
{
    match t {
        Some(s) => Some(s.clone()),
        None => None,
    }
}

impl Listing {
    #[verifier::type_invariant]
    spec fn inv(&self) -> bool {
        self.start_time.wf()
    }

    /// Builds a listing from a wire record; fails when a required field is missing or
    /// the start time cannot be read.
    pub fn from_wire(w: &WireListing) -> (r: Result<Listing, ScheduleError>)
        ensures
            r is Ok <==> valid_record(*w),
            r matches Ok(l) ==> l@ == listing_of(*w) && l@.start_time.wf(),
            r matches Err(e) ==> e == ScheduleError::FieldParse,
    {
        let (start_text, title, live) = match (&w.start_time, &w.title, w.live) {
            (Some(s), Some(t), Some(l)) => (s, t, l),
            _ => {
                return Err(ScheduleError::FieldParse);
            },
        };
        match parse_start_time(start_text.as_str()) {
            Some(t) => Ok(
                Listing {
                    title: title.clone(),
                    start_time: t,
                    description: clone_text(&w.description),
                    live,
                },
            ),
            None => Err(ScheduleError::FieldParse),
        }
    }

    fn is_repeat(&self) -> (r: bool)
        ensures
            r == marks_repeat(self@.description),
    {
        match &self.description {
            Some(d) => {
                let t = trim(d.as_str());
                has_marker(t.as_str())
            },
            None => false,
        }
    }

    /// The start date as `DD.MM.YYYY`.
    pub fn date(&self) -> (r: String)
        ensures
            r@ == date_text(self@.start_time),
    {
        proof {
            use_type_invariant(self);
        }
        self.start_time.date()
    }

    /// The start time as `HH:MM`.
    pub fn time(&self) -> (r: String)
        ensures
            r@ == time_text(self@.start_time),
    {
        proof {
            use_type_invariant(self);
        }
        self.start_time.time()
    }

    /// The trimmed description without the repeat marker; empty when there is none.
    pub fn description(&self) -> (r: String)
        ensures
            r@ == shown_description(self@.description),
            !ends_with_marker(r@),
            trimmed(r@) == r@,
    {
        match &self.description {
            Some(d) => clean_description(d.as_str()),
            None => {
                let r = String::new();
                assert(trimmed(r@) == r@);
                r
            },
        }
    }

    /// Whether there is a description with more than white space in it.
    pub fn has_description(&self) -> (r: bool)
        ensures
            r == described(self@.description),
    {
        match &self.description {
            Some(d) => {
                let t = trim(d.as_str());
                t.as_str().unicode_len() > 0
            },
            None => false,
        }
    }

    /// Live before repeat: a live broadcast is `Live` whatever its description says.
    pub fn status(&self) -> (r: Status)
        ensures
            r == status_of(self@.live, self@.description),
            self@.live ==> r == Status::Live,
            !self@.live ==> (r == Status::Repeat <==> marks_repeat(self@.description)),
            !self@.live ==> (r == Status::Standard <==> !marks_repeat(self@.description)),
    {
        if self.live {
            Status::Live
        } else if self.is_repeat() {
            Status::Repeat
        } else {
            Status::Standard
        }
    }

    /// The title with white space removed at both ends.
    pub fn title(&self) -> (r: String)
        ensures
            r@ == trimmed(self@.title),
    {
        trim(self.title.as_str())
    }

    /// When the programme starts.
    pub fn start_time(&self) -> (r: Timestamp)
        ensures
            r == self@.start_time,
            r.wf(),
    {
        proof {
            use_type_invariant(self);
        }
        self.start_time
    }

    /// Whether the broadcast is live.
    pub fn is_live(&self) -> (r: bool)
        ensures
            r == self@.live,
    {
        self.live
    }
}

/// The natural order of listings: by start time, then by title, description and live
/// flag.
pub open spec fn listing_order(a: ListingView, b: ListingView) -> Ordering {
    then_order(
        timestamp_order(a.start_time, b.start_time),
        then_order(
            text_order(a.title, b.title),
            then_order(optional_text_order(a.description, b.description), flag_order(a.live, b.live)),
        ),
    )
}

impl Listing {
    /// Compares two listings in their natural order.
    pub fn compare(&self, other: &Listing) -> (r: Ordering)
        ensures
            r == listing_order(self@, other@),
    {
        let live = compare_flags(self.live, other.live);
        let description = compare_optional_text(&self.description, &other.description);
        let rest = match description {
            Ordering::Equal => live,
            _ => description,
        };
        let title = compare_text(self.title.as_str(), other.title.as_str());
        let rest = match title {
            Ordering::Equal => rest,
            _ => title,
        };
        let start = compare_timestamps(&self.start_time, &other.start_time);
        match start {
            Ordering::Equal => rest,
            _ => start,
        }
    }
}

/// Swapping two listings reverses their order, and a listing is equal to itself.
pub proof fn law_order_reverses(a: ListingView, b: ListingView)
    ensures
        listing_order(b, a) == reversed(listing_order(a, b)),
        listing_order(a, a) == Ordering::Equal,
{
    lemma_text_order_reversed(a.title, b.title);
    if let (Some(x), Some(y)) = (a.description, b.description) {
        lemma_text_order_reversed(x, y);
    }
    if let Some(x) = a.description {
        lemma_text_order_reversed(x, x);
    }
}

/// Whether every record of the sequence is valid.
pub open spec fn all_valid(ws: Seq<WireListing>) -> bool {
    forall|i: int| 0 <= i < ws.len() ==> valid_record(#[trigger] ws[i])
}

/// Turns the records of a response into a schedule, in the order given. One record
/// that lacks a required field or whose start time cannot be read fails the whole
/// schedule.
pub fn schedule_from_records(records: &Vec<WireListing>) -> (r: Result<Vec<Listing>, ScheduleError>)
    ensures
        r is Ok <==> all_valid(records@),
        r matches Ok(s) ==> s@.len() == records@.len() && forall|i: int|
            0 <= i < s@.len() ==> #[trigger] s@[i]@ == listing_of(records@[i]),
        r matches Err(e) ==> e == ScheduleError::FieldParse,
{
    let mut out: Vec<Listing> = Vec::new();
    let mut i: usize = 0;
    while i < records.len()
        invariant
            i <= records@.len(),
            out@.len() == i,
            forall|k: int| 0 <= k < i ==> valid_record(#[trigger] records@[k]),
            forall|k: int| 0 <= k < i ==> #[trigger] out@[k]@ == listing_of(records@[k]),
        decreases records@.len() - i,
    {
        match Listing::from_wire(&records[i]) {
            Ok(l) => {
                out.push(l);
            },
            Err(e) => {
                return Err(e);
            },
        }
        i = i + 1;
    }
    Ok(out)
}

/// The day that a schedule covers: the date of its first listing, if it has one.
pub fn schedule_day(schedule: &Vec<Listing>) -> (r: Option<String>)
    ensures
        schedule@.len() == 0 <==> r is None,
        r matches Some(d) ==> d@ == date_text(schedule@[0]@.start_time),
{
    if schedule.len() == 0 {
        None
    } else {
        Some(schedule[0].date())
    }
}

proof fn lemma_front_all_white(s: Seq<char>)
    ensures
        (forall|i: int| 0 <= i < trim_front(s).len() ==> is_white(#[trigger] trim_front(s)[i]))
            <==> (forall|i: int| 0 <= i < s.len() ==> is_white(#[trigger] s[i])),
    decreases s.len(),
{
    if s.len() > 0 && is_white(s[0]) {
        lemma_front_all_white(s.drop_first());
        assert(trim_front(s) == trim_front(s.drop_first()));
        if forall|i: int| 0 <= i < s.drop_first().len() ==> is_white(#[trigger] s.drop_first()[i]) {
            assert forall|i: int| 0 <= i < s.len() implies is_white(#[trigger] s[i]) by {
                if i > 0 {
                    assert(s[i] == s.drop_first()[i - 1]);
                }
            }
        }
        if forall|i: int| 0 <= i < s.len() ==> is_white(#[trigger] s[i]) {
            assert forall|i: int| 0 <= i < s.drop_first().len() implies is_white(
                #[trigger] s.drop_first()[i],
            ) by {
                assert(s.drop_first()[i] == s[i + 1]);
            }
        }
    } else {
        assert(trim_front(s) == s);
    }
}

proof fn lemma_back_empty(s: Seq<char>)
    ensures
        trim_back(s).len() == 0 <==> (forall|i: int| 0 <= i < s.len() ==> is_white(#[trigger] s[i])),
    decreases s.len(),
{
    if s.len() > 0 && is_white(s.last()) {
        lemma_back_empty(s.drop_last());
        if forall|i: int| 0 <= i < s.drop_last().len() ==> is_white(#[trigger] s.drop_last()[i]) {
            assert forall|i: int| 0 <= i < s.len() implies is_white(#[trigger] s[i]) by {
                if i < s.len() - 1 {
                    assert(s[i] == s.drop_last()[i]);
                }
            }
        }
    } else if s.len() > 0 {
        assert(!is_white(s[s.len() - 1]));
    }
}

/// A description has something to show exactly when it holds a character that is not
/// white space: a missing, empty or blank one has nothing.
pub proof fn law_described_iff_not_blank(d: Option<Seq<char>>)
    ensures
        described(d) <==> (d matches Some(s) && exists|i: int|
            0 <= i < s.len() && !is_white(#[trigger] s[i])),
{
    if let Some(s) = d {
        lemma_front_all_white(s);
        lemma_back_empty(trim_front(s));
    }
}

/// The displayed description is the same whether or not the raw description was
/// trimmed beforehand.
pub proof fn law_description_ignores_trimming(s: Seq<char>)
    ensures
        shown_description(Some(trimmed(s))) == shown_description(Some(s)),
        marks_repeat(Some(trimmed(s))) == marks_repeat(Some(s)),
{
    lemma_trimmed_idempotent(s);
}

/// A displayed description is trimmed, and taking it as a raw description gives it
/// back unchanged.
pub proof fn law_description_is_stable(d: Option<Seq<char>>)
    ensures
        trimmed(shown_description(d)) == shown_description(d),
        shown_description(Some(shown_description(d))) == shown_description(d),
{
    if let Some(s) = d {
        lemma_cleaned_is_clean(s);
    } else {
        assert(trimmed(Seq::<char>::empty()) =~= Seq::<char>::empty());
        assert(cleaned(Seq::<char>::empty()) =~= Seq::<char>::empty());
    }
}

/// Exactly one status holds of a listing, and it is decided by the live flag first
/// and the repeat marker second.
pub proof fn law_status_precedence(live: bool, d: Option<Seq<char>>)
    ensures
        live ==> status_of(live, d) == Status::Live,
        !live && marks_repeat(d) ==> status_of(live, d) == Status::Repeat,
        !live && !marks_repeat(d) ==> status_of(live, d) == Status::Standard,
{
}

} // verus!
