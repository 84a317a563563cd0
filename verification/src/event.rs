//! Event records, the candidates they are built from, and the validator that
//! decides which candidates become records.

use crate::calendar::{is_date, not_after, sentinel_ymd, CalendarDate, Ymd};
use vstd::prelude::*;

verus! {

/// The name of an event whose source gives it no title.
pub const DEFAULT_NAME: &'static str = "meeting";

/// What stands in a text field that the source does not provide.
pub const UNKNOWN: &'static str = "unknown";

/// What was read from one structural unit of a source: the text fragments as
/// they were found, empty where nothing was found, and the dates, the
/// sentinel where none was found.
#[derive(Clone, Debug, PartialEq, Eq)]
pub struct Candidate {
    pub name: String,
    pub start_date: CalendarDate,
    pub end_date: CalendarDate,
    pub open_time: String,
    pub revenue: String,
    pub fee: String,
}

/// What a [`Candidate`] stands for in contracts.
pub struct CandidateView {
    pub name: Seq<char>,
    pub start_date: Ymd,
    pub end_date: Ymd,
    pub open_time: Seq<char>,
    pub revenue: Seq<char>,
    pub fee: Seq<char>,
}

impl View for Candidate {
    type V = CandidateView;

    open spec fn view(&self) -> CandidateView {
        CandidateView {
            name: self.name@,
            start_date: self.start_date@,
            end_date: self.end_date@,
            open_time: self.open_time@,
            revenue: self.revenue@,
            fee: self.fee@,
        }
    }
}

/// The candidate of a unit in which nothing was found.
pub open spec fn empty_candidate() -> CandidateView {
    CandidateView {
        name: Seq::empty(),
        start_date: sentinel_ymd(),
        end_date: sentinel_ymd(),
        open_time: Seq::empty(),
        revenue: Seq::empty(),
        fee: Seq::empty(),
    }
}

impl Candidate {
    /// The candidate of a unit in which nothing was found.
    pub fn empty() -> (candidate: Candidate)
        ensures
            candidate@ == empty_candidate(),
    {
        Candidate {
            name: String::new(),
            start_date: CalendarDate::sentinel(),
            end_date: CalendarDate::sentinel(),
            open_time: String::new(),
            revenue: String::new(),
            fee: String::new(),
        }
    }
}

/// The text fields that a source must provide for a unit to count as an
/// event. The two dates are required of every source.
#[derive(Clone, Copy, Debug, PartialEq, Eq, Structural)]
pub struct RequiredFields {
    pub name: bool,
    pub open_time: bool,
    pub revenue: bool,
    pub fee: bool,
}

/// Whether a candidate holds all that its source requires: no date is the
/// sentinel, and no required text is empty.
pub open spec fn is_valid_candidate(candidate: CandidateView, required: RequiredFields) -> bool {
    &&& candidate.start_date != sentinel_ymd()
    &&& candidate.end_date != sentinel_ymd()
    &&& (required.name ==> candidate.name.len() > 0)
    &&& (required.open_time ==> candidate.open_time.len() > 0)
    &&& (required.revenue ==> candidate.revenue.len() > 0)
    &&& (required.fee ==> candidate.fee.len() > 0)
}

/// The record validator: whether a candidate holds all that its source
/// requires.
pub fn validate(candidate: &Candidate, required: RequiredFields) -> (valid: bool)
    ensures
        valid == is_valid_candidate(candidate@, required),
{
    !candidate.start_date.is_sentinel() && !candidate.end_date.is_sentinel() && (!required.name
        || !candidate.name.as_str().is_empty()) && (!required.open_time
        || !candidate.open_time.as_str().is_empty()) && (!required.revenue
        || !candidate.revenue.as_str().is_empty()) && (!required.fee
        || !candidate.fee.as_str().is_empty())
}

/// What an [`EventInfo`] stands for in contracts.
pub struct EventInfoView {
    pub name: Seq<char>,
    pub organizer: Seq<char>,
    pub start_date: Ymd,
    pub end_date: Ymd,
    pub open_time: Seq<char>,
    pub revenue: Seq<char>,
    pub fee: Seq<char>,
}

/// What holds of every event record: its dates are days of the calendar and
/// not the sentinel, the event does not end before it starts, and no text
/// field but the organizer's is empty.
pub open spec fn is_complete(event: EventInfoView) -> bool {
    &&& is_date(event.start_date)
    &&& is_date(event.end_date)
    &&& event.start_date != sentinel_ymd()
    &&& event.end_date != sentinel_ymd()
    &&& not_after(event.start_date, event.end_date)
    &&& event.name.len() > 0
    &&& event.open_time.len() > 0
    &&& event.revenue.len() > 0
    &&& event.fee.len() > 0
}

/// `text`, or `default` where `text` is empty.
pub open spec fn text_or(text: Seq<char>, default: Seq<char>) -> Seq<char> {
    if text.len() == 0 {
        default
    } else {
        text
    }
}

/// The record that a candidate gives: none unless the candidate is valid and
/// does not end before it starts; else its dates and texts, with the fixed
/// defaults in place of the texts that are empty.
pub open spec fn event_of_candidate(
    candidate: CandidateView,
    required: RequiredFields,
    organizer: Seq<char>,
) -> Option<EventInfoView> {
    if is_valid_candidate(candidate, required) && not_after(
        candidate.start_date,
        candidate.end_date,
    ) {
        Some(
            EventInfoView {
                name: text_or(candidate.name, DEFAULT_NAME@),
                organizer,
                start_date: candidate.start_date,
                end_date: candidate.end_date,
                open_time: text_or(candidate.open_time, UNKNOWN@),
                revenue: text_or(candidate.revenue, UNKNOWN@),
                fee: text_or(candidate.fee, UNKNOWN@),
            },
        )
    } else {
        None
    }
}

/// One event of a chess club: the canonical record that the pipeline hands
/// on.
#[derive(Debug, PartialEq, Eq)]
pub struct EventInfo {
    name: String,
    organizer: String,
    start_date: CalendarDate,
    end_date: CalendarDate,
    open_time: String,
    revenue: String,
    fee: String,
}

impl View for EventInfo {
    type V = EventInfoView;

    closed spec fn view(&self) -> EventInfoView {
        EventInfoView {
            name: self.name@,
            organizer: self.organizer@,
            start_date: self.start_date@,
            end_date: self.end_date@,
            open_time: self.open_time@,
            revenue: self.revenue@,
            fee: self.fee@,
        }
    }
}

impl Clone for EventInfo {
    fn clone(&self) -> (copy: EventInfo)
        ensures
            copy@ == self@,
    {
        proof {
            use_type_invariant(self);
        }
        EventInfo {
            name: self.name.clone(),
            organizer: self.organizer.clone(),
            start_date: self.start_date,
            end_date: self.end_date,
            open_time: self.open_time.clone(),
            revenue: self.revenue.clone(),
            fee: self.fee.clone(),
        }
    }
}

fn or_default(text: String, default: &str) -> (filled: String)
    ensures
        filled@ == text_or(text@, default@),
{
    if text.as_str().is_empty() {
        default.to_owned()
    } else {
        text
    }
}

impl EventInfo {
    #[verifier::type_invariant]
    closed spec fn complete(self) -> bool {
        is_complete(self@)
    }

    /// Builds the record of a candidate, if the candidate is valid and does
    /// not end before it starts.
    pub fn from_candidate(
        candidate: Candidate,
        required: RequiredFields,
        organizer: &str,
    ) -> (event: Option<EventInfo>)
        ensures
            option_event_view(event) == event_of_candidate(candidate@, required, organizer@),
            event matches Some(e) ==> is_complete(e@),
    {
        if !validate(&candidate, required) || !candidate.start_date.is_not_after(
            &candidate.end_date,
        ) {
            return None;
        }
        proof {
            reveal_strlit("meeting");
            reveal_strlit("unknown");
        }
        candidate.start_date.names_day();
        candidate.end_date.names_day();
        let event = EventInfo {
            name: or_default(candidate.name, DEFAULT_NAME),
            organizer: organizer.to_owned(),
            start_date: candidate.start_date,
            end_date: candidate.end_date,
            open_time: or_default(candidate.open_time, UNKNOWN),
            revenue: or_default(candidate.revenue, UNKNOWN),
            fee: or_default(candidate.fee, UNKNOWN),
        };
        Some(event)
    }

    /// Does nothing when run; tells the verifier that this record, as every
    /// record, is complete.
    pub fn completeness(&self)
        ensures
            is_complete(self@),
    {
        proof {
            use_type_invariant(self);
        }
    }

    /// The title of the event.
    pub fn name(&self) -> (name: &str)
        ensures
            name@ == self@.name,
    {
        self.name.as_str()
    }

    /// Who holds the event: fixed for each source.
    pub fn organizer(&self) -> (organizer: &str)
        ensures
            organizer@ == self@.organizer,
    {
        self.organizer.as_str()
    }

    /// The first day of the event.
    pub fn start_date(&self) -> (date: CalendarDate)
        ensures
            date@ == self@.start_date,
    {
        self.start_date
    }

    /// The last day of the event.
    pub fn end_date(&self) -> (date: CalendarDate)
        ensures
            date@ == self@.end_date,
    {
        self.end_date
    }

    /// The hours of the event, as the source words them.
    pub fn open_time(&self) -> (open_time: &str)
        ensures
            open_time@ == self@.open_time,
    {
        self.open_time.as_str()
    }

    /// The place of the event.
    pub fn revenue(&self) -> (revenue: &str)
        ensures
            revenue@ == self@.revenue,
    {
        self.revenue.as_str()
    }

    /// What taking part costs, as the source words it.
    pub fn fee(&self) -> (fee: &str)
        ensures
            fee@ == self@.fee,
    {
        self.fee.as_str()
    }
}

/// What an optional record stands for in contracts.
pub open spec fn option_event_view(event: Option<EventInfo>) -> Option<EventInfoView> {
    match event {
        Some(e) => Some(e@),
        None => None,
    }
}

/// What a list of records stands for in contracts.
pub open spec fn event_views(events: Seq<EventInfo>) -> Seq<EventInfoView> {
    Seq::new(events.len(), |i: int| events[i]@)
}

} // verus!
