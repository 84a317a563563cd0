//! What holds of the date normaliser, the validator and the adapters, for
//! every input.

use crate::adapter::ChessEventScraper;
use crate::calendar::{
    date_or_sentinel, is_calendar_date, is_date, not_after, sentinel_ymd, year_text,
    ymd_slash_text, Ymd,
};
use crate::document::{HtmlPartView, HtmlUnitView};
use crate::event::{
    event_of_candidate, is_complete, is_valid_candidate, CandidateView, RequiredFields,
};
use crate::normalizer::{
    components_of, date_body_text, day_number, month_number, nfkd, normalized_date,
    normalized_range, resolved_date, resolved_range, right_aligned, DateGrammar,
};
use crate::number::{
    all_digits, is_digit_char, lemma_zero_padded, parse_i32_text, parse_u32_text, zero_padded,
};
use crate::text::{
    lemma_cut_without_char, lemma_split_at_first_separator, lemma_split_without_separator,
    split_text, trim_left_text,
};
use vstd::prelude::*;
use vstd::utf8::is_ascii_chars;

verus! {

/// The date of a fragment depends on the fragment only by its form in
/// Unicode Normalization Form KD: two fragments that differ in the width of
/// their digits or punctuation, and so are the same text in that form, give
/// the same date.
pub proof fn law_same_decomposition_same_date(
    first: Seq<char>,
    second: Seq<char>,
    reference: Ymd,
    grammar: DateGrammar,
)
    requires
        nfkd(first) == nfkd(second),
    ensures
        normalized_date(first, reference, grammar) == normalized_date(second, reference, grammar),
{
}

/// What a fragment leaves out comes from the reference date: a date that
/// names no year has the year of the reference date, and one that names no
/// month either has its month too. The day is always that of the fragment.
/// This holds of every date that the normaliser gives but the sentinel,
/// which it gives where the numbers name no day.
pub proof fn law_omitted_parts_come_from_reference(
    text: Seq<char>,
    reference: Ymd,
    grammar: DateGrammar,
)
    ensures
        ({
            let parts = components_of(text, grammar);
            let date = resolved_date(text, reference, grammar);
            &&& parts.month is None ==> parts.year is None
            &&& parts.year is None ==> date == date_or_sentinel(
                reference.year,
                month_number(parts.month, reference),
                day_number(parts.day),
            )
            &&& parts.month is None ==> date == date_or_sentinel(
                reference.year,
                reference.month,
                day_number(parts.day),
            )
            &&& date != sentinel_ymd() ==> {
                &&& parts.year is None ==> date.year == reference.year
                &&& parts.month is None ==> date.month == reference.month
                &&& date.day == day_number(parts.day)
            }
        }),
{
}

/// The same of a fragment as it comes from the source, before it is brought
/// into Normalization Form KD.
pub proof fn law_fragment_without_year_or_month(
    fragment: Seq<char>,
    reference: Ymd,
    grammar: DateGrammar,
)
    ensures
        ({
            let parts = components_of(nfkd(fragment), grammar);
            let date = normalized_date(fragment, reference, grammar);
            date != sentinel_ymd() ==> {
                &&& parts.year is None ==> date.year == reference.year
                &&& parts.month is None ==> date.month == reference.month
            }
        }),
{
    law_omitted_parts_come_from_reference(nfkd(fragment), reference, grammar);
}

/// The end of a range is completed from its start: an end that names no
/// year has the year of the start, and one that names no month either has
/// its month too. A range without an end ends on the day it starts.
pub proof fn law_range_end_comes_from_start(
    start: Seq<char>,
    end: Seq<char>,
    reference: Ymd,
    grammar: DateGrammar,
)
    ensures
        ({
            let range = resolved_range(start, Some(end), reference, grammar);
            let parts = components_of(end, grammar);
            &&& range.0 == resolved_date(start, reference, grammar)
            &&& range.1 != sentinel_ymd() ==> {
                &&& parts.year is None ==> range.1.year == range.0.year
                &&& parts.month is None ==> range.1.month == range.0.month
            }
        }),
        resolved_range(start, None, reference, grammar).1 == resolved_range(
            start,
            None,
            reference,
            grammar,
        ).0,
{
    law_omitted_parts_come_from_reference(
        end,
        resolved_date(start, reference, grammar),
        grammar,
    );
}

/// A fragment without a dash names one day: its start and its end are the
/// same.
pub proof fn law_fragment_without_dash_names_one_day(
    fragment: Seq<char>,
    reference: Ymd,
    grammar: DateGrammar,
)
    requires
        forall|i: int| 0 <= i < fragment.len() ==> fragment[i] != '-',
    ensures
        normalized_range(fragment, reference, grammar).0 == normalized_range(
            fragment,
            reference,
            grammar,
        ).1,
        normalized_range(fragment, reference, grammar).0 == normalized_date(
            fragment,
            reference,
            grammar,
        ),
{
    let dash = seq!['-'];
    assert forall|i: int| 0 <= i < fragment.len() implies !dash.contains(fragment[i]) by {
        if dash.contains(fragment[i]) {
            let k = choose|k: int| 0 <= k < dash.len() && dash[k] == fragment[i];
        }
    }
    lemma_split_without_separator(fragment, dash);
}

/// What the text of a written date is made of: digits, a sign and slashes.
pub open spec fn is_written_date_char(c: char) -> bool {
    is_digit_char(c) || c == '+' || c == '-' || c == '/'
}

/// A year reads back from its text as an `i32`, and its text holds digits
/// and at most a sign in front.
pub proof fn lemma_year_text(year: int)
    requires
        i32::MIN <= year <= i32::MAX,
    ensures
        parse_i32_text(year_text(year)) == Some(year as i32),
        forall|i: int|
            0 <= i < year_text(year).len() ==> is_written_date_char(#[trigger] year_text(year)[i])
                && year_text(year)[i] != '/',
{
    let text = year_text(year);
    if 0 <= year <= 9999 {
        lemma_zero_padded(year as nat, 4);
        assert(is_digit_char(text[0]));
    } else if year < 0 {
        let digits = zero_padded((-year) as nat, 4);
        lemma_zero_padded((-year) as nat, 4);
        assert(text.skip(1) =~= digits);
        assert(text[0] == '-');
        assert forall|i: int| 0 <= i < text.len() implies is_written_date_char(#[trigger] text[i])
            && text[i] != '/' by {
            if i > 0 {
                assert(text[i] == digits[i - 1]);
            }
        }
    } else {
        let digits = zero_padded(year as nat, 4);
        lemma_zero_padded(year as nat, 4);
        assert(text.skip(1) =~= digits);
        assert(text[0] == '+');
        assert forall|i: int| 0 <= i < text.len() implies is_written_date_char(#[trigger] text[i])
            && text[i] != '/' by {
            if i > 0 {
                assert(text[i] == digits[i - 1]);
            }
        }
    }
}

/// A month or a day reads back from its text as a `u32`.
pub proof fn lemma_two_digit_text(n: int)
    requires
        0 <= n <= u32::MAX,
    ensures
        parse_u32_text(zero_padded(n as nat, 2)) == Some(n as u32),
        all_digits(zero_padded(n as nat, 2)),
{
    lemma_zero_padded(n as nat, 2);
    assert(is_digit_char(zero_padded(n as nat, 2)[0]));
}

/// The text of a written date holds digits, signs and slashes only.
pub proof fn lemma_written_date_chars(date: Ymd)
    requires
        is_calendar_date(date.year, date.month, date.day),
    ensures
        forall|i: int|
            0 <= i < ymd_slash_text(date).len() ==> is_written_date_char(
                #[trigger] ymd_slash_text(date)[i],
            ),
{
    let year = year_text(date.year);
    let month = zero_padded(date.month as nat, 2);
    let day = zero_padded(date.day as nat, 2);
    let text = ymd_slash_text(date);
    lemma_year_text(date.year);
    lemma_two_digit_text(date.month);
    lemma_two_digit_text(date.day);
    assert forall|i: int| 0 <= i < text.len() implies is_written_date_char(#[trigger] text[i]) by {
        if i < year.len() {
            assert(text[i] == year[i]);
        } else if i == year.len() {
        } else if i < year.len() + 1 + month.len() {
            assert(text[i] == month[i - year.len() - 1]);
        } else if i == year.len() + 1 + month.len() {
        } else {
            assert(text[i] == day[i - year.len() - month.len() - 2]);
        }
    }
}

/// The text of a written date is plain ASCII.
pub proof fn lemma_written_date_is_ascii(date: Ymd)
    requires
        is_calendar_date(date.year, date.month, date.day),
    ensures
        is_ascii_chars(ymd_slash_text(date)),
{
    lemma_written_date_chars(date);
}

/// Writing a date and reading it back gives the date: the text that a date
/// is written as, read under the grammar of slashes, resolves to that date,
/// whatever the reference date.
pub proof fn law_written_date_reads_back(date: Ymd, reference: Ymd)
    requires
        is_calendar_date(date.year, date.month, date.day),
    ensures
        resolved_date(ymd_slash_text(date), reference, DateGrammar::Slashes) == date,
{
    let grammar = DateGrammar::Slashes;
    let year = year_text(date.year);
    let month = zero_padded(date.month as nat, 2);
    let day = zero_padded(date.day as nat, 2);
    let slash = seq!['/'];
    let text = ymd_slash_text(date);
    lemma_year_text(date.year);
    lemma_two_digit_text(date.month);
    lemma_two_digit_text(date.day);
    // No parenthesis stands in the text, so nothing is cut from it.
    lemma_written_date_chars(date);
    lemma_cut_without_char(text, '(');
    lemma_cut_without_char(text, '（');
    let patterns = grammar.cut_patterns();
    assert(patterns.drop_last() =~= seq![seq!['(']]);
    assert(patterns.drop_last().drop_last() =~= Seq::<Seq<char>>::empty());
    reveal_with_fuel(trim_left_text, 3);
    assert(date_body_text(text, grammar) == text);
    // The two slashes part the year, the month and the day.
    let separators = grammar.separator_text();
    assert(separators[0] == '/');
    assert(separators.contains('/'));
    assert forall|c: char| separators.contains(c) implies c == '/' by {
        let i = choose|i: int| 0 <= i < separators.len() && separators[i] == c;
    }
    let tail = month + slash + day;
    assert(text =~= year + slash + tail);
    lemma_split_at_first_separator(year, '/', tail, separators);
    lemma_split_at_first_separator(month, '/', day, separators);
    lemma_split_without_separator(day, separators);
    let pieces = split_text(text, separators);
    assert(pieces =~= seq![year, month, day]);
    assert(right_aligned(pieces).year == Some(year));
    assert(right_aligned(pieces).month == Some(month));
    assert(right_aligned(pieces).day == day);
}

/// The validator is complete: a candidate that lacks one of the things its
/// source requires gives no record.
pub proof fn law_missing_field_gives_no_event(
    candidate: CandidateView,
    required: RequiredFields,
    organizer: Seq<char>,
)
    requires
        candidate.start_date == sentinel_ymd() || candidate.end_date == sentinel_ymd() || (
        required.name && candidate.name.len() == 0) || (required.open_time
            && candidate.open_time.len() == 0) || (required.revenue && candidate.revenue.len() == 0)
            || (required.fee && candidate.fee.len() == 0),
    ensures
        event_of_candidate(candidate, required, organizer) is None,
{
}

/// A record is built of valid candidates only, every record is complete, and
/// none ends before it starts.
pub proof fn law_events_come_from_valid_candidates(
    candidate: CandidateView,
    required: RequiredFields,
    organizer: Seq<char>,
)
    requires
        is_date(candidate.start_date),
        is_date(candidate.end_date),
        event_of_candidate(candidate, required, organizer) is Some,
    ensures
        is_valid_candidate(candidate, required),
        is_complete(event_of_candidate(candidate, required, organizer)->0),
        event_of_candidate(candidate, required, organizer)->0.start_date == candidate.start_date,
        event_of_candidate(candidate, required, organizer)->0.end_date == candidate.end_date,
        not_after(candidate.start_date, candidate.end_date),
{
    reveal_strlit("meeting");
    reveal_strlit("unknown");
}

/// A structural unit that lacks what its source requires gives no event.
pub proof fn law_unit_missing_field_gives_no_event(scraper: ChessEventScraper, unit: HtmlUnitView)
    requires
        !is_valid_candidate(scraper.candidate_of_unit(unit), scraper.required_fields()),
    ensures
        scraper.event_of_unit(unit) is None,
{
}

proof fn lemma_club8x8_names_one_day(parts: Seq<HtmlPartView>)
    ensures
        crate::club8x8::candidate_of_parts(parts).start_date == crate::club8x8::candidate_of_parts(
            parts,
        ).end_date,
        is_date(crate::club8x8::candidate_of_parts(parts).start_date),
    decreases parts.len(),
{
    if parts.len() > 0 {
        lemma_club8x8_names_one_day(parts.drop_last());
    }
}

proof fn lemma_jcf_names_days(parts: Seq<HtmlPartView>)
    ensures
        is_date(crate::jcf::candidate_of_parts(parts).start_date),
        is_date(crate::jcf::candidate_of_parts(parts).end_date),
    decreases parts.len(),
{
    if parts.len() > 0 {
        lemma_jcf_names_days(parts.drop_last());
    }
}

/// The normaliser gives days of the calendar only, the sentinel among them.
pub proof fn law_normalized_date_is_a_day(
    fragment: Seq<char>,
    reference: Ymd,
    grammar: DateGrammar,
)
    ensures
        is_date(resolved_date(fragment, reference, grammar)),
        is_date(normalized_date(fragment, reference, grammar)),
        is_date(normalized_range(fragment, reference, grammar).0),
        is_date(normalized_range(fragment, reference, grammar).1),
{
}

/// The dates that a source reads from a unit are days of the calendar.
pub proof fn law_unit_dates_are_days(scraper: ChessEventScraper, unit: HtmlUnitView)
    ensures
        is_date(scraper.candidate_of_unit(unit).start_date),
        is_date(scraper.candidate_of_unit(unit).end_date),
{
    lemma_club8x8_names_one_day(unit.parts);
    lemma_jcf_names_days(unit.parts);
}

/// The events of the two clubs last one day: they end on the day they start.
pub proof fn law_club_events_last_one_day(scraper: ChessEventScraper, unit: HtmlUnitView)
    requires
        !(scraper is Jcf),
        scraper.event_of_unit(unit) is Some,
    ensures
        scraper.event_of_unit(unit)->0.start_date == scraper.event_of_unit(unit)->0.end_date,
{
    lemma_club8x8_names_one_day(unit.parts);
}

/// A unit that gives no event leaves no trace in the events of a page: the
/// events are those of the page without that unit.
pub proof fn law_unit_without_event_is_dropped(
    scraper: ChessEventScraper,
    units: Seq<HtmlUnitView>,
    i: int,
)
    requires
        0 <= i < units.len(),
        scraper.event_of_unit(units[i]) is None,
    ensures
        scraper.events_of_units(units) == scraper.events_of_units(units.remove(i)),
    decreases units.len(),
{
    if i == units.len() - 1 {
        assert(units.remove(i) =~= units.drop_last());
    } else {
        law_unit_without_event_is_dropped(scraper, units.drop_last(), i);
        assert(units.remove(i).drop_last() =~= units.drop_last().remove(i));
        assert(units.remove(i).last() == units.last());
    }
}

/// No page gives more events than it has units, and every event is complete.
pub proof fn law_events_of_units(scraper: ChessEventScraper, units: Seq<HtmlUnitView>)
    ensures
        scraper.events_of_units(units).len() <= units.len(),
        forall|k: int|
            0 <= k < scraper.events_of_units(units).len() ==> is_complete(
                #[trigger] scraper.events_of_units(units)[k],
            ),
    decreases units.len(),
{
    if units.len() > 0 {
        law_events_of_units(scraper, units.drop_last());
        let unit = units.last();
        if scraper.event_of_unit(unit) is Some {
            law_unit_dates_are_days(scraper, unit);
            law_events_come_from_valid_candidates(
                scraper.candidate_of_unit(unit),
                scraper.required_fields(),
                scraper.organizer_text(),
            );
        }
    }
}

} // verus!
