//! The Kita-Senjyu chess club: one block of the page holds the schedule, a
//! line per meeting, with the date, the opening time and the place in fields
//! parted by ideographic spaces.

use crate::calendar::{CalendarDate, Ymd};
use crate::document::{HtmlUnit, HtmlUnitView};
use crate::event::{
    empty_candidate, event_of_candidate, is_complete, option_event_view, Candidate, CandidateView,
    EventInfo, EventInfoView, RequiredFields,
};
use crate::normalizer::{normalize_date, normalized_date, DateGrammar};
use crate::text::{contains, lines, lines_text, occurs_in, slice_texts, split, split_text};
use vstd::prelude::*;

verus! {

/// The keyword that the registry knows the source by.
pub const KEYWORD: &'static str = "kitasenjyu";

/// The page of the source.
pub const URL: &'static str = "http://chess.m1.valueserver.jp/";

/// The page is not UTF-8: it has to be decoded as Shift_JIS.
pub const CHARSET: &'static str = "Shift_JIS";

/// The organizer of every event of the source.
pub const ORGANIZER: &'static str = "kita-senjyu chess club";

/// Selects the blocks of the page.
pub const UNIT_SELECTOR: &'static str = "div.item";

/// The blocks are read as a whole; no part of them is looked at.
pub const PART_SELECTOR: &'static str = "p";

/// Stands in the block that holds the schedule.
pub const UNIT_MARKER: &'static str = "公式戦例会予定";

/// Stands in a line of the schedule that describes a meeting.
pub const LINE_MARKER: &'static str = "日本チェス連盟公式戦２Ｒ";

/// Parts the fields of a line: the ideographic space.
pub const FIELD_SEPARATOR: &'static str = "\u{3000}";

/// The year in which the dates of the schedule lie.
pub const SCHEDULE_YEAR: i32 = 2024;

/// The reference date of this source: its dates name no year.
pub open spec fn reference_ymd() -> Ymd {
    Ymd { year: SCHEDULE_YEAR as int, month: 1, day: 1 }
}

/// What a block must provide: the opening time and the place.
pub open spec fn required_fields() -> RequiredFields {
    RequiredFields { name: false, open_time: true, revenue: true, fee: false }
}

/// The last of `lines` that holds the line marker.
pub open spec fn schedule_line_text(lines: Seq<Seq<char>>) -> Option<Seq<char>>
    decreases lines.len(),
{
    if lines.len() == 0 {
        None
    } else if occurs_in(lines.last(), LINE_MARKER@) {
        Some(lines.last())
    } else {
        schedule_line_text(lines.drop_last())
    }
}

/// The candidate that a line of the schedule gives: its second field is the
/// date, its third the opening time, its fourth the place. A line with fewer
/// than four fields gives nothing.
pub open spec fn candidate_of_line(line: Seq<char>) -> CandidateView {
    let fields = split_text(line, seq!['\u{3000}']);
    if fields.len() >= 4 {
        let date = normalized_date(fields[1], reference_ymd(), DateGrammar::Slashes);
        CandidateView {
            start_date: date,
            end_date: date,
            open_time: fields[2],
            revenue: fields[3],
            ..empty_candidate()
        }
    } else {
        empty_candidate()
    }
}

/// The candidate that a block gives: nothing unless it holds the block
/// marker; else what the last line with the line marker gives.
pub open spec fn candidate_of_unit(unit: HtmlUnitView) -> CandidateView {
    if occurs_in(unit.text, UNIT_MARKER@) {
        match schedule_line_text(lines_text(unit.text)) {
            Some(line) => candidate_of_line(line),
            None => empty_candidate(),
        }
    } else {
        empty_candidate()
    }
}

/// The event that a block gives, if it gives one.
pub open spec fn event_of_unit(unit: HtmlUnitView) -> Option<EventInfoView> {
    event_of_candidate(candidate_of_unit(unit), required_fields(), ORGANIZER@)
}

/// The scraper of the Kita-Senjyu chess club.
#[derive(Clone, Copy, Debug, PartialEq, Eq, Structural)]
pub struct EventScraperKitasenjyu;

impl EventScraperKitasenjyu {
    /// What a block must provide.
    pub fn required() -> (required: RequiredFields)
        ensures
            required == required_fields(),
    {
        RequiredFields { name: false, open_time: true, revenue: true, fee: false }
    }

    /// The reference date of this source.
    pub fn reference_date() -> (date: CalendarDate)
        ensures
            date@ == reference_ymd(),
    {
        CalendarDate::from_ymd_or_sentinel(SCHEDULE_YEAR, 1, 1)
    }

    /// The date that a fragment such as `７／２７（土）` names.
    pub fn naive_date_from_str(input: &str) -> (date: CalendarDate)
        ensures
            date@ == normalized_date(input@, reference_ymd(), DateGrammar::Slashes),
    {
        normalize_date(input, Self::reference_date(), DateGrammar::Slashes)
    }

    /// The last of `lines` that holds the line marker.
    pub fn schedule_line<'a>(lines: &Vec<&'a str>) -> (line: Option<&'a str>)
        ensures
            match line {
                Some(found) => schedule_line_text(slice_texts(lines@)) == Some(found@),
                None => schedule_line_text(slice_texts(lines@)) is None,
            },
    {
        let ghost texts = slice_texts(lines@);
        let mut i: usize = lines.len();
        assert(texts.take(i as int) =~= texts);
        while i > 0
            invariant
                i <= lines.len(),
                texts == slice_texts(lines@),
                schedule_line_text(texts) == schedule_line_text(texts.take(i as int)),
            decreases i,
        {
            proof {
                assert(texts.take(i as int).drop_last() =~= texts.take(i - 1));
                assert(texts.take(i as int).last() == lines@[i - 1]@);
            }
            if contains(lines[i - 1], LINE_MARKER) {
                return Some(lines[i - 1]);
            }
            i -= 1;
        }
        None
    }

    /// The candidate that a line of the schedule gives.
    pub fn line_candidate(line: &str) -> (candidate: Candidate)
        ensures
            candidate@ == candidate_of_line(line@),
    {
        proof {
            reveal_strlit("\u{3000}");
            assert("\u{3000}"@ =~= seq!['\u{3000}']);
        }
        let fields = split(line, FIELD_SEPARATOR);
        let ghost texts = slice_texts(fields@);
        let mut candidate = Candidate::empty();
        if fields.len() >= 4 {
            assert(texts[1] == fields@[1]@);
            assert(texts[2] == fields@[2]@);
            assert(texts[3] == fields@[3]@);
            let date = Self::naive_date_from_str(fields[1]);
            candidate.start_date = date;
            candidate.end_date = date;
            candidate.open_time = fields[2].to_owned();
            candidate.revenue = fields[3].to_owned();
        }
        candidate
    }

    /// Reads a block of the page.
    pub fn unit_candidate(unit: &HtmlUnit) -> (candidate: Candidate)
        ensures
            candidate@ == candidate_of_unit(unit@),
    {
        let text = unit.text.as_str();
        if !contains(text, UNIT_MARKER) {
            return Candidate::empty();
        }
        let all = lines(text);
        match Self::schedule_line(&all) {
            Some(line) => Self::line_candidate(line),
            None => Candidate::empty(),
        }
    }

    /// The event that a block gives, if it gives one.
    pub fn unit_event(unit: &HtmlUnit) -> (event: Option<EventInfo>)
        ensures
            option_event_view(event) == event_of_unit(unit@),
            event matches Some(e) ==> is_complete(e@),
    {
        EventInfo::from_candidate(Self::unit_candidate(unit), Self::required(), ORGANIZER)
    }
}

} // verus!
