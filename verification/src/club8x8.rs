//! The 8x8 chess club: one article per meeting, with a paragraph each for the
//! place, the date, the fee and the opening time.

use crate::calendar::{sentinel_ymd, CalendarDate, Ymd};
use crate::document::{part_views, HtmlPartView, HtmlUnit, HtmlUnitView};
use crate::event::{
    empty_candidate, event_of_candidate, is_complete, option_event_view, Candidate, CandidateView,
    EventInfo, EventInfoView, RequiredFields,
};
use crate::extractor::{
    date_fragment, date_fragment_text, has_shape, labelled_text, labelled_value, matches_shape,
};
use crate::normalizer::{normalize_date, normalized_date, DateGrammar};
use crate::text::{trim, trim_text};
use vstd::prelude::*;

verus! {

/// The keyword that the registry knows the source by.
pub const KEYWORD: &'static str = "8x8_chess_club";

/// The page of the source.
pub const URL: &'static str = "https://8by8.hatenablog.com/";

/// The organizer of every event of the source.
pub const ORGANIZER: &'static str = "8x8 chess club";

/// Selects the articles of the page.
pub const UNIT_SELECTOR: &'static str = "article";

/// Selects the paragraphs of an article.
pub const PART_SELECTOR: &'static str = "p";

/// Stands before the place of a meeting.
pub const LOCATION_LABEL: &'static str = "場所:";

/// Stands before the date of a meeting.
pub const DATE_LABEL: &'static str = "日時:";

/// Stands before the fee of a meeting.
pub const FEE_LABEL: &'static str = "参加費:";

/// The shape of an opening time: two digits and the hour sign, two digits
/// and the minute sign, a wave dash, and the same once more.
pub const OPEN_TIME_PATTERN: &'static str = r"(\d{2})時\d{2}分〜\d{2}時\d{2}分";

/// The reference date of this source: it names every part of its dates, so
/// the sentinel stands in for what an ill-formed date leaves out.
pub open spec fn reference_ymd() -> Ymd {
    sentinel_ymd()
}

/// What an article must provide: the place, the fee and the opening time.
pub open spec fn required_fields() -> RequiredFields {
    RequiredFields { name: false, open_time: true, revenue: true, fee: true }
}

/// The candidate after one more paragraph: the paragraph's value for each
/// label that it holds takes the place of what was found before, and so does
/// the trimmed paragraph as the opening time where it has that shape.
pub open spec fn paragraph_step(
    candidate: CandidateView,
    text: Seq<char>,
    has_time_shape: bool,
) -> CandidateView {
    let with_revenue = match labelled_text(text, LOCATION_LABEL@) {
        Some(value) => CandidateView { revenue: value, ..candidate },
        None => candidate,
    };
    let with_date = match date_fragment_text(text, DATE_LABEL@) {
        Some(fragment) => {
            let date = normalized_date(fragment, reference_ymd(), DateGrammar::Markers);
            CandidateView { start_date: date, end_date: date, ..with_revenue }
        },
        None => with_revenue,
    };
    let with_fee = match labelled_text(text, FEE_LABEL@) {
        Some(value) => CandidateView { fee: value, ..with_date },
        None => with_date,
    };
    if has_time_shape {
        CandidateView { open_time: trim_text(text), ..with_fee }
    } else {
        with_fee
    }
}

/// The candidate that the paragraphs of an article give, read in order.
pub open spec fn candidate_of_parts(parts: Seq<HtmlPartView>) -> CandidateView
    decreases parts.len(),
{
    if parts.len() == 0 {
        empty_candidate()
    } else {
        let text = parts.last().text;
        paragraph_step(
            candidate_of_parts(parts.drop_last()),
            text,
            has_shape(text, OPEN_TIME_PATTERN@),
        )
    }
}

/// The event that an article gives, if it gives one.
pub open spec fn event_of_unit(unit: HtmlUnitView) -> Option<EventInfoView> {
    event_of_candidate(candidate_of_parts(unit.parts), required_fields(), ORGANIZER@)
}

/// The scraper of the 8x8 chess club.
#[derive(Clone, Copy, Debug, PartialEq, Eq, Structural)]
pub struct EventScraperClub8x8;

impl EventScraperClub8x8 {
    /// What an article must provide.
    pub fn required() -> (required: RequiredFields)
        ensures
            required == required_fields(),
    {
        RequiredFields { name: false, open_time: true, revenue: true, fee: true }
    }

    /// The date that a fragment such as `2024年1月7日(日)` names.
    pub fn naive_date_from_str(input: &str) -> (date: CalendarDate)
        ensures
            date@ == normalized_date(input@, reference_ymd(), DateGrammar::Markers),
    {
        normalize_date(input, CalendarDate::sentinel(), DateGrammar::Markers)
    }

    /// Takes into the candidate what one paragraph holds, given whether the
    /// paragraph has the shape of an opening time.
    pub fn absorb_paragraph(
        candidate: Candidate,
        text: &str,
        has_time_shape: bool,
    ) -> (updated: Candidate)
        ensures
            updated@ == paragraph_step(candidate@, text@, has_time_shape),
    {
        let mut updated = candidate;
        match labelled_value(text, LOCATION_LABEL) {
            Some(value) => {
                updated.revenue = value.to_owned();
            },
            None => {},
        }
        match date_fragment(text, DATE_LABEL) {
            Some(fragment) => {
                let date = Self::naive_date_from_str(fragment);
                updated.start_date = date;
                updated.end_date = date;
            },
            None => {},
        }
        match labelled_value(text, FEE_LABEL) {
            Some(value) => {
                updated.fee = value.to_owned();
            },
            None => {},
        }
        if has_time_shape {
            updated.open_time = trim(text).to_owned();
        }
        updated
    }

    /// Takes into the candidate what one paragraph holds.
    pub fn read_paragraph(candidate: Candidate, text: &str) -> (updated: Candidate)
        ensures
            updated@ == paragraph_step(candidate@, text@, has_shape(text@, OPEN_TIME_PATTERN@)),
    {
        let has_time_shape = matches_shape(text, OPEN_TIME_PATTERN);
        Self::absorb_paragraph(candidate, text, has_time_shape)
    }

    /// Reads the paragraphs of an article.
    pub fn unit_candidate(unit: &HtmlUnit) -> (candidate: Candidate)
        ensures
            candidate@ == candidate_of_parts(unit@.parts),
    {
        let mut candidate = Candidate::empty();
        let ghost parts = part_views(unit.parts@);
        let mut i: usize = 0;
        while i < unit.parts.len()
            invariant
                i <= unit.parts.len(),
                parts == part_views(unit.parts@),
                candidate@ == candidate_of_parts(parts.take(i as int)),
            decreases unit.parts.len() - i,
        {
            proof {
                assert(parts.take(i + 1).drop_last() =~= parts.take(i as int));
                assert(parts.take(i + 1).last() == unit.parts@[i as int]@);
            }
            candidate = Self::read_paragraph(candidate, unit.parts[i].text.as_str());
            i += 1;
        }
        assert(parts.take(i as int) =~= parts);
        candidate
    }

    /// The event that an article gives, if it gives one.
    pub fn unit_event(unit: &HtmlUnit) -> (event: Option<EventInfo>)
        ensures
            option_event_view(event) == event_of_unit(unit@),
            event matches Some(e) ==> is_complete(e@),
    {
        EventInfo::from_candidate(Self::unit_candidate(unit), Self::required(), ORGANIZER)
    }
}

} // verus!
