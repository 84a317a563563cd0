//! The date normaliser: from the free text of a source to a calendar date.
//!
//! A fragment is first brought into Unicode Normalization Form KD, so that
//! full-width digits and punctuation read like their plain forms. What
//! follows an opening parenthesis is dropped, the rest is split at the
//! separators of the source's grammar, and the pieces are taken from the
//! right as day, month and year. A piece that is missing comes from the
//! reference date, a piece that is no number from a fixed fallback, and
//! numbers that name no day give the sentinel.

use crate::calendar::{date_or_sentinel, CalendarDate, Ymd};
use crate::number::{parse_i32, parse_i32_text, parse_u32, parse_u32_text};
use crate::text::{cut, slice_texts, split, split_text, trim_left_text};
use unicode_normalization::UnicodeNormalization;
use vstd::prelude::*;
use vstd::utf8::is_ascii_chars;

verus! {

/// The year taken where the year's text is no number.
pub const FALLBACK_YEAR: i32 = 1995;

/// The month taken where the month's text is no number.
pub const FALLBACK_MONTH: u32 = 10;

/// The day taken where the day's text is no number.
pub const FALLBACK_DAY: u32 = 5;

/// The two forms of the parenthesis that opens an annotation: the plain one
/// and the full-width one.
pub open spec fn annotation_patterns() -> Seq<Seq<char>> {
    seq![seq!['('], seq!['（']]
}

/// `text` cut before the first opening parenthesis of either form.
pub open spec fn without_annotation(text: Seq<char>) -> Seq<char> {
    trim_left_text(text, annotation_patterns())
}

/// Drops the annotation in parentheses that may follow a date: keeps what
/// stands before the first opening parenthesis of either form, trimmed.
pub fn cut_annotation<'a>(text: &'a str) -> (kept: &'a str)
    ensures
        kept@ == without_annotation(text@),
{
    proof {
        reveal_strlit("(");
        reveal_strlit("（");
        assert("("@ =~= seq!['(']);
        assert("（"@ =~= seq!['（']);
        reveal_with_fuel(trim_left_text, 3);
        let patterns = annotation_patterns();
        assert(patterns.drop_last() =~= seq![seq!['(']]);
        assert(patterns.drop_last().drop_last() =~= Seq::<Seq<char>>::empty());
    }
    cut(cut(text, "("), "（")
}

/// How a source writes its dates.
#[derive(Clone, Copy, Debug, PartialEq, Eq, Structural)]
pub enum DateGrammar {
    /// The numbers stand before the markers for year, month and day, as in
    /// `2024年1月7日`.
    Markers,
    /// The numbers stand between slashes, as in `2024/1/7`.
    Slashes,
}

impl DateGrammar {
    /// The characters at which this grammar splits a date.
    pub open spec fn separator_text(self) -> Seq<char> {
        match self {
            DateGrammar::Markers => seq!['年', '月'],
            DateGrammar::Slashes => seq!['/'],
        }
    }

    /// The patterns before which this grammar cuts a date, in order: the
    /// parentheses that open an annotation and, where the day has a marker,
    /// that marker.
    pub open spec fn cut_patterns(self) -> Seq<Seq<char>> {
        match self {
            DateGrammar::Markers => annotation_patterns().push(seq!['日']),
            DateGrammar::Slashes => annotation_patterns(),
        }
    }

    /// The characters at which this grammar splits a date.
    pub fn separators(&self) -> (separators: &'static str)
        ensures
            separators@ == self.separator_text(),
    {
        match self {
            DateGrammar::Markers => {
                proof {
                    reveal_strlit("年月");
                }
                assert("年月"@ =~= seq!['年', '月']);
                "年月"
            },
            DateGrammar::Slashes => {
                proof {
                    reveal_strlit("/");
                }
                assert("/"@ =~= seq!['/']);
                "/"
            },
        }
    }

    /// The part of `text` that holds the numbers of the date.
    pub fn date_body<'a>(&self, text: &'a str) -> (body: &'a str)
        ensures
            body@ == date_body_text(text@, *self),
    {
        let kept = cut_annotation(text);
        match self {
            DateGrammar::Markers => {
                proof {
                    reveal_strlit("日");
                    assert("日"@ =~= seq!['日']);
                    assert(self.cut_patterns().drop_last() =~= annotation_patterns());
                }
                cut(kept, "日")
            },
            DateGrammar::Slashes => kept,
        }
    }
}

/// The texts of the three parts of a date, as far as the fragment holds them.
pub struct ComponentTexts {
    pub year: Option<Seq<char>>,
    pub month: Option<Seq<char>>,
    pub day: Seq<char>,
}

/// The pieces of a date taken from the right: the last is the day, the one
/// before it the month, the one before that the year.
pub open spec fn right_aligned(pieces: Seq<Seq<char>>) -> ComponentTexts {
    let n = pieces.len() as int;
    ComponentTexts {
        year: if n >= 3 {
            Some(pieces[n - 3])
        } else {
            None
        },
        month: if n >= 2 {
            Some(pieces[n - 2])
        } else {
            None
        },
        day: if n >= 1 {
            pieces[n - 1]
        } else {
            Seq::empty()
        },
    }
}

/// The part of `text` that holds the numbers of the date: `text` cut before
/// each of the grammar's patterns.
pub open spec fn date_body_text(text: Seq<char>, grammar: DateGrammar) -> Seq<char> {
    trim_left_text(text, grammar.cut_patterns())
}

/// The parts of the date that `text` holds under `grammar`.
pub open spec fn components_of(text: Seq<char>, grammar: DateGrammar) -> ComponentTexts {
    right_aligned(split_text(date_body_text(text, grammar), grammar.separator_text()))
}

/// The year: that of the reference date where the text holds none, the
/// fallback where what it holds is no number.
pub open spec fn year_number(text: Option<Seq<char>>, reference: Ymd) -> int {
    match text {
        Some(t) => match parse_i32_text(t) {
            Some(year) => year as int,
            None => FALLBACK_YEAR as int,
        },
        None => reference.year,
    }
}

/// The month: that of the reference date where the text holds none, the
/// fallback where what it holds is no number.
pub open spec fn month_number(text: Option<Seq<char>>, reference: Ymd) -> int {
    match text {
        Some(t) => match parse_u32_text(t) {
            Some(month) => month as int,
            None => FALLBACK_MONTH as int,
        },
        None => reference.month,
    }
}

/// The day: the fallback where the text is no number. The day is never taken
/// from the reference date.
pub open spec fn day_number(text: Seq<char>) -> int {
    match parse_u32_text(text) {
        Some(day) => day as int,
        None => FALLBACK_DAY as int,
    }
}

/// The date that the parts give, or the sentinel where their numbers name no
/// day.
pub open spec fn resolve_components(parts: ComponentTexts, reference: Ymd) -> Ymd {
    date_or_sentinel(
        year_number(parts.year, reference),
        month_number(parts.month, reference),
        day_number(parts.day),
    )
}

/// The date that a text in Normalization Form KD gives: its pieces, taken
/// from the right, completed from the reference date and built into a date.
pub open spec fn resolved_date(text: Seq<char>, reference: Ymd, grammar: DateGrammar) -> Ymd {
    resolve_components(components_of(text, grammar), reference)
}

/// Resolves a text in Normalization Form KD to the date it names.
pub fn resolve_date(
    text: &str,
    reference: CalendarDate,
    grammar: DateGrammar,
) -> (date: CalendarDate)
    ensures
        date@ == resolved_date(text@, reference@, grammar),
{
    let body = grammar.date_body(text);
    let pieces = split(body, grammar.separators());
    let n: usize = pieces.len();
    let ghost texts = slice_texts(pieces@);
    assert(texts.len() == n);
    let day: u32 = match parse_u32(pieces[n - 1]) {
        Some(day) => day,
        None => FALLBACK_DAY,
    };
    assert(texts[n - 1] == pieces@[n - 1]@);
    let month: u32 = if n >= 2 {
        assert(texts[n - 2] == pieces@[n - 2]@);
        match parse_u32(pieces[n - 2]) {
            Some(month) => month,
            None => FALLBACK_MONTH,
        }
    } else {
        reference.month()
    };
    let year: i32 = if n >= 3 {
        assert(texts[n - 3] == pieces@[n - 3]@);
        match parse_i32(pieces[n - 3]) {
            Some(year) => year,
            None => FALLBACK_YEAR,
        }
    } else {
        reference.year()
    };
    CalendarDate::from_ymd_or_sentinel(year, month, day)
}

/// The start and the end that the two texts of a range give: the end is read
/// with the start as its reference date, and is the start itself where the
/// range has no second text.
pub open spec fn resolved_range(
    start: Seq<char>,
    end: Option<Seq<char>>,
    reference: Ymd,
    grammar: DateGrammar,
) -> (Ymd, Ymd) {
    let first = resolved_date(start, reference, grammar);
    match end {
        Some(text) => (first, resolved_date(text, first, grammar)),
        None => (first, first),
    }
}

/// Resolves the two texts of a range, both in Normalization Form KD, to the
/// start and the end they name.
pub fn resolve_date_range(
    start: &str,
    end: Option<&str>,
    reference: CalendarDate,
    grammar: DateGrammar,
) -> (range: (CalendarDate, CalendarDate))
    ensures
        (range.0@, range.1@) == resolved_range(
            start@,
            match end {
                Some(text) => Some(text@),
                None => None,
            },
            reference@,
            grammar,
        ),
{
    let first = resolve_date(start, reference, grammar);
    match end {
        Some(text) => (first, resolve_date(text, first, grammar)),
        None => (first, first),
    }
}

/// `text` in Unicode Normalization Form KD (compatibility decomposition).
pub uninterp spec fn nfkd(text: Seq<char>) -> Seq<char>;

/// Has `unicode_normalization` bring `text` into Normalization Form KD. The
/// crate decomposes no character of 7-bit ASCII, so a text of such characters
/// comes back as it is.
#[verifier::external_body]
fn nfkd_string(text: &str) -> (decomposed: String)
    ensures
        decomposed@ == nfkd(text@),
        is_ascii_chars(text@) ==> decomposed@ == text@,
{
    text.nfkd().collect::<String>()
}

/// The date that a fragment gives: that of its form in Normalization Form
/// KD.
pub open spec fn normalized_date(fragment: Seq<char>, reference: Ymd, grammar: DateGrammar) -> Ymd {
    resolved_date(nfkd(fragment), reference, grammar)
}

/// Normalises a date fragment: the date it names, completed from `reference`
/// where it names no year or no month, or the sentinel where its numbers name
/// no day. A fragment of plain ASCII is read as it stands.
pub fn normalize_date(
    fragment: &str,
    reference: CalendarDate,
    grammar: DateGrammar,
) -> (date: CalendarDate)
    ensures
        date@ == normalized_date(fragment@, reference@, grammar),
        is_ascii_chars(fragment@) ==> date@ == resolved_date(fragment@, reference@, grammar),
{
    let decomposed = nfkd_string(fragment);
    resolve_date(decomposed.as_str(), reference, grammar)
}

/// The start and the end that a range fragment gives. The fragment is split at
/// `-`; the first piece is the start, the second the end.
pub open spec fn normalized_range(fragment: Seq<char>, reference: Ymd, grammar: DateGrammar) -> (
    Ymd,
    Ymd,
) {
    let pieces = split_text(fragment, seq!['-']);
    resolved_range(
        nfkd(pieces[0]),
        if pieces.len() > 1 {
            Some(nfkd(pieces[1]))
        } else {
            None
        },
        reference,
        grammar,
    )
}

/// Normalises a fragment that names one day or a range of days. The end of a
/// range takes the year and the month that it does not name from the start;
/// a single day is both start and end.
pub fn normalize_date_range(
    fragment: &str,
    reference: CalendarDate,
    grammar: DateGrammar,
) -> (range: (CalendarDate, CalendarDate))
    ensures
        (range.0@, range.1@) == normalized_range(fragment@, reference@, grammar),
{
    proof {
        reveal_strlit("-");
        assert("-"@ =~= seq!['-']);
    }
    let pieces = split(fragment, "-");
    let ghost texts = slice_texts(pieces@);
    assert(texts[0] == pieces@[0]@);
    let start = nfkd_string(pieces[0]);
    if pieces.len() > 1 {
        assert(texts[1] == pieces@[1]@);
        let end = nfkd_string(pieces[1]);
        resolve_date_range(start.as_str(), Some(end.as_str()), reference, grammar)
    } else {
        resolve_date_range(start.as_str(), None, reference, grammar)
    }
}

} // verus!
