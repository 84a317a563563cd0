//! The source adapters behind one type, the registry that maps a keyword to
//! its adapter, and the walk over the structural units of a page that all
//! adapters share.

use crate::calendar::{CalendarDate, Ymd};
use crate::club8x8::EventScraperClub8x8;
use crate::document::{
    html_units, scraper_select, unit_views, HtmlUnit, HtmlUnitView, CLASS_ATTRIBUTE,
};
use crate::event::{
    event_of_candidate, event_views, is_complete, option_event_view, CandidateView, EventInfo,
    EventInfoView, RequiredFields,
};
use crate::jcf::EventScraperJcf;
use crate::kitasenjyu::EventScraperKitasenjyu;
use crate::normalizer::DateGrammar;
use crate::text::{option_text, same_text};
use vstd::prelude::*;

verus! {

/// What is fixed of a source: where its page is and how it is read.
#[derive(Clone, Copy, Debug, PartialEq, Eq)]
pub struct SourceConfig {
    /// The keyword that the registry knows the source by.
    pub keyword: &'static str,
    /// The one page of the source.
    pub url: &'static str,
    /// The character encoding of the page, where it is not UTF-8.
    pub charset: Option<&'static str>,
    /// The organizer of every event of the source.
    pub organizer: &'static str,
    /// The CSS selector of the structural units.
    pub unit_selector: &'static str,
    /// The CSS selector of the parts inside a unit.
    pub part_selector: &'static str,
    /// How the source writes its dates.
    pub grammar: DateGrammar,
    /// The date that completes the dates of the source.
    pub reference_date: CalendarDate,
    /// The text fields that a unit must provide.
    pub required: RequiredFields,
}

/// A source adapter: one variant per source.
#[derive(Clone, Copy, Debug, PartialEq, Eq, Structural)]
pub enum ChessEventScraper {
    Club8x8(EventScraperClub8x8),
    Kitasenjyu(EventScraperKitasenjyu),
    Jcf(EventScraperJcf),
}

impl ChessEventScraper {
    /// The keyword of the source.
    pub open spec fn keyword_text(self) -> Seq<char> {
        match self {
            ChessEventScraper::Club8x8(_) => crate::club8x8::KEYWORD@,
            ChessEventScraper::Kitasenjyu(_) => crate::kitasenjyu::KEYWORD@,
            ChessEventScraper::Jcf(_) => crate::jcf::KEYWORD@,
        }
    }

    /// The one page of the source.
    pub open spec fn url_text(self) -> Seq<char> {
        match self {
            ChessEventScraper::Club8x8(_) => crate::club8x8::URL@,
            ChessEventScraper::Kitasenjyu(_) => crate::kitasenjyu::URL@,
            ChessEventScraper::Jcf(_) => crate::jcf::URL@,
        }
    }

    /// The character encoding of the page, where it is not UTF-8.
    pub open spec fn charset_text(self) -> Option<Seq<char>> {
        match self {
            ChessEventScraper::Kitasenjyu(_) => Some(crate::kitasenjyu::CHARSET@),
            _ => None,
        }
    }

    /// The CSS selector of the structural units of the source.
    pub open spec fn unit_selector_text(self) -> Seq<char> {
        match self {
            ChessEventScraper::Club8x8(_) => crate::club8x8::UNIT_SELECTOR@,
            ChessEventScraper::Kitasenjyu(_) => crate::kitasenjyu::UNIT_SELECTOR@,
            ChessEventScraper::Jcf(_) => crate::jcf::UNIT_SELECTOR@,
        }
    }

    /// The CSS selector of the parts inside a unit of the source.
    pub open spec fn part_selector_text(self) -> Seq<char> {
        match self {
            ChessEventScraper::Club8x8(_) => crate::club8x8::PART_SELECTOR@,
            ChessEventScraper::Kitasenjyu(_) => crate::kitasenjyu::PART_SELECTOR@,
            ChessEventScraper::Jcf(_) => crate::jcf::PART_SELECTOR@,
        }
    }

    /// The organizer of the events of the source.
    pub open spec fn organizer_text(self) -> Seq<char> {
        match self {
            ChessEventScraper::Club8x8(_) => crate::club8x8::ORGANIZER@,
            ChessEventScraper::Kitasenjyu(_) => crate::kitasenjyu::ORGANIZER@,
            ChessEventScraper::Jcf(_) => crate::jcf::ORGANIZER@,
        }
    }

    /// How the source writes its dates.
    pub open spec fn grammar(self) -> DateGrammar {
        match self {
            ChessEventScraper::Club8x8(_) => DateGrammar::Markers,
            ChessEventScraper::Kitasenjyu(_) => DateGrammar::Slashes,
            ChessEventScraper::Jcf(_) => DateGrammar::Slashes,
        }
    }

    /// The date that completes the dates of the source.
    pub open spec fn reference_ymd(self) -> Ymd {
        match self {
            ChessEventScraper::Club8x8(_) => crate::club8x8::reference_ymd(),
            ChessEventScraper::Kitasenjyu(_) => crate::kitasenjyu::reference_ymd(),
            ChessEventScraper::Jcf(_) => crate::jcf::reference_ymd(),
        }
    }

    /// The text fields that a unit of the source must provide.
    pub open spec fn required_fields(self) -> RequiredFields {
        match self {
            ChessEventScraper::Club8x8(_) => crate::club8x8::required_fields(),
            ChessEventScraper::Kitasenjyu(_) => crate::kitasenjyu::required_fields(),
            ChessEventScraper::Jcf(_) => crate::jcf::required_fields(),
        }
    }

    /// What the source reads from one structural unit.
    pub open spec fn candidate_of_unit(self, unit: HtmlUnitView) -> CandidateView {
        match self {
            ChessEventScraper::Club8x8(_) => crate::club8x8::candidate_of_parts(unit.parts),
            ChessEventScraper::Kitasenjyu(_) => crate::kitasenjyu::candidate_of_unit(unit),
            ChessEventScraper::Jcf(_) => crate::jcf::candidate_of_parts(unit.parts),
        }
    }

    /// The event that one structural unit gives, if it gives one: the record
    /// of what was read from it, where that is valid.
    pub open spec fn event_of_unit(self, unit: HtmlUnitView) -> Option<EventInfoView> {
        event_of_candidate(
            self.candidate_of_unit(unit),
            self.required_fields(),
            self.organizer_text(),
        )
    }

    /// The events that the units give, in the order of the units. A unit that
    /// gives no event leaves no trace.
    pub open spec fn events_of_units(self, units: Seq<HtmlUnitView>) -> Seq<EventInfoView>
        decreases units.len(),
    {
        if units.len() == 0 {
            Seq::empty()
        } else {
            let before = self.events_of_units(units.drop_last());
            match self.event_of_unit(units.last()) {
                Some(event) => before.push(event),
                None => before,
            }
        }
    }

    /// The events of a page: those of the units that the source's selectors
    /// find in it.
    pub open spec fn events_of_page(self, page: Seq<char>) -> Seq<EventInfoView> {
        match html_units(
            page,
            self.unit_selector_text(),
            self.part_selector_text(),
            CLASS_ATTRIBUTE@,
        ) {
            Some(units) => self.events_of_units(units),
            None => Seq::empty(),
        }
    }

    /// What is fixed of the source.
    pub fn source(&self) -> (config: SourceConfig)
        ensures
            config.keyword@ == self.keyword_text(),
            config.url@ == self.url_text(),
            option_text(config.charset) == self.charset_text(),
            config.unit_selector@ == self.unit_selector_text(),
            config.part_selector@ == self.part_selector_text(),
            config.organizer@ == self.organizer_text(),
            config.grammar == self.grammar(),
            config.reference_date@ == self.reference_ymd(),
            config.required == self.required_fields(),
    {
        match self {
            ChessEventScraper::Club8x8(_) => SourceConfig {
                keyword: crate::club8x8::KEYWORD,
                url: crate::club8x8::URL,
                charset: None,
                organizer: crate::club8x8::ORGANIZER,
                unit_selector: crate::club8x8::UNIT_SELECTOR,
                part_selector: crate::club8x8::PART_SELECTOR,
                grammar: DateGrammar::Markers,
                reference_date: CalendarDate::sentinel(),
                required: EventScraperClub8x8::required(),
            },
            ChessEventScraper::Kitasenjyu(_) => SourceConfig {
                keyword: crate::kitasenjyu::KEYWORD,
                url: crate::kitasenjyu::URL,
                charset: Some(crate::kitasenjyu::CHARSET),
                organizer: crate::kitasenjyu::ORGANIZER,
                unit_selector: crate::kitasenjyu::UNIT_SELECTOR,
                part_selector: crate::kitasenjyu::PART_SELECTOR,
                grammar: DateGrammar::Slashes,
                reference_date: EventScraperKitasenjyu::reference_date(),
                required: EventScraperKitasenjyu::required(),
            },
            ChessEventScraper::Jcf(_) => SourceConfig {
                keyword: crate::jcf::KEYWORD,
                url: crate::jcf::URL,
                charset: None,
                organizer: crate::jcf::ORGANIZER,
                unit_selector: crate::jcf::UNIT_SELECTOR,
                part_selector: crate::jcf::PART_SELECTOR,
                grammar: DateGrammar::Slashes,
                reference_date: CalendarDate::sentinel(),
                required: EventScraperJcf::required(),
            },
        }
    }

    /// The event that one structural unit gives, if it gives one.
    pub fn unit_event(&self, unit: &HtmlUnit) -> (event: Option<EventInfo>)
        ensures
            option_event_view(event) == self.event_of_unit(unit@),
            event matches Some(e) ==> is_complete(e@),
    {
        match self {
            ChessEventScraper::Club8x8(_) => EventScraperClub8x8::unit_event(unit),
            ChessEventScraper::Kitasenjyu(_) => EventScraperKitasenjyu::unit_event(unit),
            ChessEventScraper::Jcf(_) => EventScraperJcf::unit_event(unit),
        }
    }

    /// The events that the units of a page give. A unit that lacks what the
    /// source requires is passed over.
    pub fn events_from_units(&self, units: &Vec<HtmlUnit>) -> (events: Vec<EventInfo>)
        ensures
            event_views(events@) == self.events_of_units(unit_views(units@)),
            forall|i: int| 0 <= i < events.len() ==> is_complete(#[trigger] events[i]@),
    {
        let mut events: Vec<EventInfo> = Vec::new();
        let ghost all = unit_views(units@);
        let mut i: usize = 0;
        assert(event_views(events@) =~= Seq::<EventInfoView>::empty());
        while i < units.len()
            invariant
                i <= units.len(),
                all == unit_views(units@),
                event_views(events@) == self.events_of_units(all.take(i as int)),
                forall|k: int| 0 <= k < events.len() ==> is_complete(#[trigger] events[k]@),
            decreases units.len() - i,
        {
            proof {
                assert(all.take(i + 1).drop_last() =~= all.take(i as int));
                assert(all.take(i + 1).last() == units@[i as int]@);
            }
            let ghost before = event_views(events@);
            match self.unit_event(&units[i]) {
                Some(event) => {
                    let ghost view = event@;
                    events.push(event);
                    assert(event_views(events@) =~= before.push(view));
                },
                None => {},
            }
            i += 1;
        }
        assert(all.take(i as int) =~= all);
        events
    }

    /// The events of the source's page, given the text of the page. A page in
    /// which nothing is found gives no event.
    pub fn scrape_event(&self, page: &str) -> (events: Vec<EventInfo>)
        ensures
            event_views(events@) == self.events_of_page(page@),
            forall|i: int| 0 <= i < events.len() ==> is_complete(#[trigger] events[i]@),
    {
        let config = self.source();
        match scraper_select(page, config.unit_selector, config.part_selector, CLASS_ATTRIBUTE) {
            Some(units) => self.events_from_units(&units),
            None => {
                let events: Vec<EventInfo> = Vec::new();
                assert(event_views(events@) =~= Seq::<EventInfoView>::empty());
                events
            },
        }
    }
}

/// Why no adapter could be had.
#[derive(Clone, Copy, Debug, PartialEq, Eq, Structural)]
pub enum ConfigError {
    /// The registry knows no source by the keyword.
    UnsupportedKeyword,
}

impl ConfigError {
    /// The error in words.
    pub fn message(&self) -> (message: &'static str)
        ensures
            message@ == "Not supported keyword"@,
    {
        "Not supported keyword"
    }
}

/// The adapter that the registry holds for `keyword`, if it holds one.
pub open spec fn scraper_for_keyword(keyword: Seq<char>) -> Option<ChessEventScraper> {
    if keyword == crate::club8x8::KEYWORD@ {
        Some(ChessEventScraper::Club8x8(EventScraperClub8x8))
    } else if keyword == crate::kitasenjyu::KEYWORD@ {
        Some(ChessEventScraper::Kitasenjyu(EventScraperKitasenjyu))
    } else if keyword == crate::jcf::KEYWORD@ {
        Some(ChessEventScraper::Jcf(EventScraperJcf))
    } else {
        None
    }
}

/// What the registry answers to `keyword`: the adapter, or the error.
pub open spec fn creation_of(keyword: Seq<char>) -> Result<ChessEventScraper, ConfigError> {
    match scraper_for_keyword(keyword) {
        Some(found) => Ok(found),
        None => Err(ConfigError::UnsupportedKeyword),
    }
}

/// The registry of the source adapters.
#[derive(Clone, Copy, Debug)]
pub struct ChessEventScraperFactory;

impl ChessEventScraperFactory {
    /// The adapter of the source that `keyword` names. Any other keyword is
    /// answered with an error.
    pub fn create(keyword: &str) -> (scraper: Result<ChessEventScraper, ConfigError>)
        ensures
            scraper == creation_of(keyword@),
            scraper is Err <==> keyword@ != crate::club8x8::KEYWORD@ && keyword@
                != crate::kitasenjyu::KEYWORD@ && keyword@ != crate::jcf::KEYWORD@,
    {
        if same_text(keyword, crate::club8x8::KEYWORD) {
            Ok(ChessEventScraper::Club8x8(EventScraperClub8x8))
        } else if same_text(keyword, crate::kitasenjyu::KEYWORD) {
            Ok(ChessEventScraper::Kitasenjyu(EventScraperKitasenjyu))
        } else if same_text(keyword, crate::jcf::KEYWORD) {
            Ok(ChessEventScraper::Jcf(EventScraperJcf))
        } else {
            Err(ConfigError::UnsupportedKeyword)
        }
    }
}

/// Resolves the adapter of each keyword. A keyword that names no source has
/// its own error and does not stand in the way of the others.
pub fn resolve_sources(keywords: &Vec<&str>) -> (resolved: Vec<
    Result<ChessEventScraper, ConfigError>,
>)
    ensures
        resolved.len() == keywords.len(),
        forall|i: int|
            0 <= i < keywords.len() ==> #[trigger] resolved[i] == creation_of(keywords[i]@),
{
    let mut resolved: Vec<Result<ChessEventScraper, ConfigError>> = Vec::new();
    let mut i: usize = 0;
    while i < keywords.len()
        invariant
            i <= keywords.len(),
            resolved.len() == i,
            forall|k: int| 0 <= k < i ==> #[trigger] resolved[k] == creation_of(keywords[k]@),
        decreases keywords.len() - i,
    {
        resolved.push(ChessEventScraperFactory::create(keywords[i]));
        i += 1;
    }
    resolved
}

/// The keywords of the sources that the pipeline visits, in order. The
/// registry holds an adapter for each.
pub fn chess_club_list() -> (keywords: Vec<&'static str>)
    ensures
        keywords.len() == 3,
        keywords[0]@ == crate::club8x8::KEYWORD@,
        keywords[1]@ == crate::kitasenjyu::KEYWORD@,
        keywords[2]@ == crate::jcf::KEYWORD@,
        forall|i: int|
            0 <= i < keywords.len() ==> scraper_for_keyword(#[trigger] keywords[i]@) is Some,
{
    let mut keywords: Vec<&'static str> = Vec::new();
    keywords.push(crate::club8x8::KEYWORD);
    keywords.push(crate::kitasenjyu::KEYWORD);
    keywords.push(crate::jcf::KEYWORD);
    keywords
}

} // verus!
