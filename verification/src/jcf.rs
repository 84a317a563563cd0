//! The Japan Chess Federation: one box per tournament, with one element for
//! its name and one for its days, a single day or a range.

use crate::calendar::{sentinel_ymd, CalendarDate, Ymd};
use crate::document::{part_views, HtmlPart, HtmlPartView, HtmlUnit, HtmlUnitView};
use crate::event::{
    empty_candidate, event_of_candidate, is_complete, option_event_view, Candidate, CandidateView,
    EventInfo, EventInfoView, RequiredFields,
};
use crate::normalizer::{
    normalize_date, normalize_date_range, normalized_date, normalized_range, DateGrammar,
};
use crate::text::same_text;
use vstd::prelude::*;

verus! {

/// The keyword that the registry knows the source by.
pub const KEYWORD: &'static str = "JCF";

/// The federation has one page per year.
pub const URL: &'static str = "https://japanchess.org/tournament2024-2/";

/// The organizer of every event of the source.
pub const ORGANIZER: &'static str = "Japan Chess Federation";

/// Selects the boxes of the page.
pub const UNIT_SELECTOR: &'static str = "div.TournamentBox";

/// Selects the elements of a box.
pub const PART_SELECTOR: &'static str = "div";

/// The class of the element that holds the name of a tournament.
pub const NAME_CLASS: &'static str = "tournamentname";

/// The class of the element that holds the days of a tournament.
pub const DATE_CLASS: &'static str = "gamedate";

/// The reference date of this source: nothing is known of a start that names
/// no year, so the sentinel stands in.
pub open spec fn reference_ymd() -> Ymd {
    sentinel_ymd()
}

/// What a box must provide: the name of the tournament.
pub open spec fn required_fields() -> RequiredFields {
    RequiredFields { name: true, open_time: false, revenue: false, fee: false }
}

/// The class of a part; empty where it has none.
pub open spec fn class_text(part: HtmlPartView) -> Seq<char> {
    match part.class {
        Some(class) => class,
        None => Seq::empty(),
    }
}

/// The candidate after one more element: an element of the name class gives
/// the name, one of the date class the two dates.
pub open spec fn part_step(candidate: CandidateView, part: HtmlPartView) -> CandidateView {
    let named = if class_text(part) == NAME_CLASS@ {
        CandidateView { name: part.text, ..candidate }
    } else {
        candidate
    };
    if class_text(part) == DATE_CLASS@ {
        let range = normalized_range(part.text, reference_ymd(), DateGrammar::Slashes);
        CandidateView { start_date: range.0, end_date: range.1, ..named }
    } else {
        named
    }
}

/// The candidate that the elements of a box give, read in order.
pub open spec fn candidate_of_parts(parts: Seq<HtmlPartView>) -> CandidateView
    decreases parts.len(),
{
    if parts.len() == 0 {
        empty_candidate()
    } else {
        part_step(candidate_of_parts(parts.drop_last()), parts.last())
    }
}

/// The event that a box gives, if it gives one.
pub open spec fn event_of_unit(unit: HtmlUnitView) -> Option<EventInfoView> {
    event_of_candidate(candidate_of_parts(unit.parts), required_fields(), ORGANIZER@)
}

/// The scraper of the Japan Chess Federation.
#[derive(Clone, Copy, Debug, PartialEq, Eq, Structural)]
pub struct EventScraperJcf;

impl EventScraperJcf {
    /// What a box must provide.
    pub fn required() -> (required: RequiredFields)
        ensures
            required == required_fields(),
    {
        RequiredFields { name: true, open_time: false, revenue: false, fee: false }
    }

    /// The date that a fragment such as `2024/1/20(土)` or `1/8(月祝)` names,
    /// with `start_date` for the year and the month that it leaves out.
    pub fn naive_date_from_str(input: &str, start_date: CalendarDate) -> (date: CalendarDate)
        ensures
            date@ == normalized_date(input@, start_date@, DateGrammar::Slashes),
    {
        normalize_date(input, start_date, DateGrammar::Slashes)
    }

    /// Takes into the candidate what one element of a box holds.
    pub fn read_part(candidate: Candidate, part: &HtmlPart) -> (updated: Candidate)
        ensures
            updated@ == part_step(candidate@, part@),
    {
        let mut updated = candidate;
        proof {
            reveal_strlit("tournamentname");
            reveal_strlit("gamedate");
            assert(NAME_CLASS@.len() > 0);
            assert(DATE_CLASS@.len() > 0);
        }
        let (is_name, is_days) = match &part.class {
            Some(class) => (
                same_text(class.as_str(), NAME_CLASS),
                same_text(class.as_str(), DATE_CLASS),
            ),
            None => (false, false),
        };
        if is_name {
            updated.name = part.text.clone();
        }
        if is_days {
            let range = normalize_date_range(
                part.text.as_str(),
                CalendarDate::sentinel(),
                DateGrammar::Slashes,
            );
            updated.start_date = range.0;
            updated.end_date = range.1;
        }
        updated
    }

    /// Reads the elements of a box.
    pub fn unit_candidate(unit: &HtmlUnit) -> (candidate: Candidate)
        ensures
            candidate@ == candidate_of_parts(unit@.parts),
    {
        let mut candidate = Candidate::empty();
        let ghost parts = part_views(unit.parts@);
        let mut i: usize = 0;
        while i < unit.parts.len()
            invariant
                i <= unit.parts.len(),
                parts == part_views(unit.parts@),
                candidate@ == candidate_of_parts(parts.take(i as int)),
            decreases unit.parts.len() - i,
        {
            proof {
                assert(parts.take(i + 1).drop_last() =~= parts.take(i as int));
                assert(parts.take(i + 1).last() == unit.parts@[i as int]@);
            }
            candidate = Self::read_part(candidate, &unit.parts[i]);
            i += 1;
        }
        assert(parts.take(i as int) =~= parts);
        candidate
    }

    /// The event that a box gives, if it gives one.
    pub fn unit_event(unit: &HtmlUnit) -> (event: Option<EventInfo>)
        ensures
            option_event_view(event) == event_of_unit(unit@),
            event matches Some(e) ==> is_complete(e@),
    {
        EventInfo::from_candidate(Self::unit_candidate(unit), Self::required(), ORGANIZER)
    }
}

} // verus!
