use chess_events::adapter::{
    chess_club_list, resolve_sources, ChessEventScraper, ChessEventScraperFactory, ConfigError,
};
use chess_events::calendar::CalendarDate;
use chess_events::club8x8::EventScraperClub8x8;
use chess_events::document::{HtmlPart, HtmlUnit};
use chess_events::event::RequiredFields;
use chess_events::jcf::EventScraperJcf;
use chess_events::kitasenjyu::EventScraperKitasenjyu;
use chess_events::normalizer::DateGrammar;

fn ymd(year: i32, month: u32, day: u32) -> CalendarDate {
    CalendarDate::from_ymd_opt(year, month, day).unwrap()
}

const CLUB_PAGE: &str = "<html><head><title>8x8</title></head><body>\
<article><h1>1月例会</h1>\
<p>日時: 2024年1月7日(日) (定員10名)</p>\
<p>13時00分〜17時00分</p>\
<p>場所: <b>東京都</b>千代田区</p>\
<p>参加費: 500円</p></article>\
<article><p>13時00分〜17時00分</p></article>\
<article><p>日時: 2024年2月4日(日)</p><p>10時30分〜12時00分</p>\
<p>場所: 大阪</p><p>参加費: 無料</p></article>\
<p>場所: どこか</p>\
</body></html>";

const KITASENJYU_PAGE: &str = "<html><body>\
<div class=\"item\">お知らせ</div>\
<div class=\"item\">公式戦例会予定<br>\n\
日本チェス連盟公式戦２Ｒ\u{3000}７／２７（土）\u{3000}13:00〜17:00\u{3000}北千住<br>\n\
</div>\
<div class=\"other\">公式戦例会予定\n\
日本チェス連盟公式戦２Ｒ\u{3000}８／２４（土）\u{3000}13:00〜17:00\u{3000}南千住\n\
</div>\
</body></html>";

const JCF_PAGE: &str = "<html><body>\
<div class=\"TournamentBox\">\
<div class=\"tournamentname\">新春オープン</div>\
<div class=\"gamedate\">2024/1/7(日)-1/8(月祝)</div>\
</div>\
<div class=\"TournamentBox\"><div class=\"gamedate\">2024/1/20(土)</div></div>\
<div class=\"TournamentBox\">\
<div class=\"tournamentname\">月例会</div>\
<div class=\"gamedate\">2024/1/20(土)</div>\
</div>\
</body></html>";

#[test]
fn the_registry_knows_the_three_sources() {
    assert_eq!(
        ChessEventScraperFactory::create("8x8_chess_club"),
        Ok(ChessEventScraper::Club8x8(EventScraperClub8x8)),
    );
    assert_eq!(
        ChessEventScraperFactory::create("kitasenjyu"),
        Ok(ChessEventScraper::Kitasenjyu(EventScraperKitasenjyu)),
    );
    assert_eq!(ChessEventScraperFactory::create("JCF"), Ok(ChessEventScraper::Jcf(EventScraperJcf)));
}

#[test]
fn an_unknown_keyword_is_a_configuration_error() {
    for keyword in ["", "jcf", "JCF ", "8x8", "kitasenjyu2", "Not supported keyword"] {
        assert_eq!(ChessEventScraperFactory::create(keyword), Err(ConfigError::UnsupportedKeyword));
    }
    assert_eq!(ConfigError::UnsupportedKeyword.message(), "Not supported keyword");
}

#[test]
fn every_listed_keyword_has_its_adapter() {
    let keywords = chess_club_list();
    assert_eq!(keywords, vec!["8x8_chess_club", "kitasenjyu", "JCF"]);
    for keyword in keywords {
        let scraper = ChessEventScraperFactory::create(keyword).unwrap();
        assert_eq!(scraper.source().keyword, keyword);
    }
}

#[test]
fn the_sources_are_configured() {
    let club = ChessEventScraper::Club8x8(EventScraperClub8x8).source();
    assert_eq!(club.url, "https://8by8.hatenablog.com/");
    assert_eq!(club.charset, None);
    assert_eq!(club.organizer, "8x8 chess club");
    assert_eq!(club.unit_selector, "article");
    assert_eq!(club.part_selector, "p");
    assert_eq!(club.grammar, DateGrammar::Markers);
    assert!(club.reference_date.is_sentinel());
    assert_eq!(
        club.required,
        RequiredFields { name: false, open_time: true, revenue: true, fee: true },
    );

    let kita = ChessEventScraper::Kitasenjyu(EventScraperKitasenjyu).source();
    assert_eq!(kita.url, "http://chess.m1.valueserver.jp/");
    assert_eq!(kita.charset, Some("Shift_JIS"));
    assert_eq!(kita.organizer, "kita-senjyu chess club");
    assert_eq!(kita.unit_selector, "div.item");
    assert_eq!(kita.grammar, DateGrammar::Slashes);
    assert_eq!(kita.reference_date, ymd(2024, 1, 1));
    assert_eq!(
        kita.required,
        RequiredFields { name: false, open_time: true, revenue: true, fee: false },
    );

    let jcf = ChessEventScraper::Jcf(EventScraperJcf).source();
    assert_eq!(jcf.url, "https://japanchess.org/tournament2024-2/");
    assert_eq!(jcf.charset, None);
    assert_eq!(jcf.organizer, "Japan Chess Federation");
    assert_eq!(jcf.unit_selector, "div.TournamentBox");
    assert_eq!(jcf.part_selector, "div");
    assert_eq!(jcf.grammar, DateGrammar::Slashes);
    assert!(jcf.reference_date.is_sentinel());
    assert_eq!(
        jcf.required,
        RequiredFields { name: true, open_time: false, revenue: false, fee: false },
    );
}

#[test]
fn club8x8_page_gives_its_complete_articles() {
    let scraper = ChessEventScraperFactory::create("8x8_chess_club").unwrap();
    let events = scraper.scrape_event(CLUB_PAGE);
    assert_eq!(events.len(), 2);
    assert_eq!(events[0].name(), "meeting");
    assert_eq!(events[0].organizer(), "8x8 chess club");
    assert_eq!(events[0].start_date(), ymd(2024, 1, 7));
    assert_eq!(events[0].end_date(), ymd(2024, 1, 7));
    assert_eq!(events[0].open_time(), "13時00分〜17時00分");
    assert_eq!(events[0].revenue(), "東京都千代田区");
    assert_eq!(events[0].fee(), "500円");
    assert_eq!(events[1].start_date(), ymd(2024, 2, 4));
    assert_eq!(events[1].open_time(), "10時30分〜12時00分");
    assert_eq!(events[1].revenue(), "大阪");
    assert_eq!(events[1].fee(), "無料");
}

#[test]
fn kitasenjyu_page_gives_the_schedule_of_its_block() {
    let scraper = ChessEventScraperFactory::create("kitasenjyu").unwrap();
    let events = scraper.scrape_event(KITASENJYU_PAGE);
    assert_eq!(events.len(), 1);
    assert_eq!(events[0].name(), "meeting");
    assert_eq!(events[0].organizer(), "kita-senjyu chess club");
    assert_eq!(events[0].start_date(), ymd(2024, 7, 27));
    assert_eq!(events[0].end_date(), ymd(2024, 7, 27));
    assert_eq!(events[0].open_time(), "13:00〜17:00");
    assert_eq!(events[0].revenue(), "北千住");
    assert_eq!(events[0].fee(), "unknown");
}

#[test]
fn jcf_page_gives_its_named_tournaments() {
    let scraper = ChessEventScraperFactory::create("JCF").unwrap();
    let events = scraper.scrape_event(JCF_PAGE);
    assert_eq!(events.len(), 2);
    assert_eq!(events[0].name(), "新春オープン");
    assert_eq!(events[0].organizer(), "Japan Chess Federation");
    assert_eq!(events[0].start_date(), ymd(2024, 1, 7));
    assert_eq!(events[0].end_date(), ymd(2024, 1, 8));
    assert_eq!(events[0].open_time(), "unknown");
    assert_eq!(events[0].revenue(), "unknown");
    assert_eq!(events[0].fee(), "unknown");
    assert_eq!(events[1].name(), "月例会");
    assert_eq!(events[1].start_date(), ymd(2024, 1, 20));
    assert_eq!(events[1].end_date(), ymd(2024, 1, 20));
}

#[test]
fn a_page_of_another_source_gives_nothing() {
    let club = ChessEventScraper::Club8x8(EventScraperClub8x8);
    assert_eq!(club.scrape_event(JCF_PAGE).len(), 0);
    assert_eq!(club.scrape_event("").len(), 0);
    let jcf = ChessEventScraper::Jcf(EventScraperJcf);
    assert_eq!(jcf.scrape_event(CLUB_PAGE).len(), 0);
}

#[test]
fn every_event_of_a_page_is_complete() {
    for (keyword, page) in
        [("8x8_chess_club", CLUB_PAGE), ("kitasenjyu", KITASENJYU_PAGE), ("JCF", JCF_PAGE)]
    {
        let scraper = ChessEventScraperFactory::create(keyword).unwrap();
        for event in scraper.scrape_event(page) {
            event.completeness();
            assert!(event.start_date().is_not_after(&event.end_date()));
            assert!(!event.start_date().is_sentinel());
            assert!(!event.end_date().is_sentinel());
            assert!(!event.name().is_empty());
            assert!(!event.open_time().is_empty());
            assert!(!event.revenue().is_empty());
            assert!(!event.fee().is_empty());
        }
    }
}

fn jcf_unit(name: &str, days: &str) -> HtmlUnit {
    HtmlUnit {
        text: String::new(),
        parts: vec![
            HtmlPart { class: Some(String::from("tournamentname")), text: String::from(name) },
            HtmlPart { class: Some(String::from("gamedate")), text: String::from(days) },
        ],
    }
}

#[test]
fn a_unit_without_an_event_leaves_no_trace() {
    let scraper = ChessEventScraper::Jcf(EventScraperJcf);
    let with = vec![
        jcf_unit("A", "2024/1/7"),
        jcf_unit("", "2024/1/8"),
        jcf_unit("C", "2024/2/30"),
        jcf_unit("D", "2024/1/9-10"),
    ];
    let without = vec![jcf_unit("A", "2024/1/7"), jcf_unit("D", "2024/1/9-10")];
    let events = scraper.events_from_units(&with);
    let expected = scraper.events_from_units(&without);
    assert_eq!(events.len(), 2);
    assert_eq!(expected.len(), 2);
    for (event, other) in events.iter().zip(expected.iter()) {
        assert_eq!(event.name(), other.name());
        assert_eq!(event.start_date(), other.start_date());
        assert_eq!(event.end_date(), other.end_date());
    }
    assert_eq!(events[0].name(), "A");
    assert_eq!(events[1].name(), "D");
    assert_eq!(events[1].end_date(), ymd(2024, 1, 10));
    assert!(scraper.unit_event(&with[1]).is_none());
    assert!(scraper.unit_event(&with[2]).is_none());
    assert_eq!(scraper.events_from_units(&Vec::new()).len(), 0);
}

#[test]
fn a_keyword_without_a_source_does_not_stand_in_the_way_of_the_others() {
    let resolved = resolve_sources(&vec!["JCF", "nowhere", "8x8_chess_club", "", "kitasenjyu"]);
    assert_eq!(
        resolved,
        vec![
            Ok(ChessEventScraper::Jcf(EventScraperJcf)),
            Err(ConfigError::UnsupportedKeyword),
            Ok(ChessEventScraper::Club8x8(EventScraperClub8x8)),
            Err(ConfigError::UnsupportedKeyword),
            Ok(ChessEventScraper::Kitasenjyu(EventScraperKitasenjyu)),
        ],
    );
    assert_eq!(resolve_sources(&Vec::new()).len(), 0);
    assert!(resolve_sources(&chess_club_list()).iter().all(|r| r.is_ok()));
}

#[test]
fn a_tournament_that_ends_before_it_starts_is_dropped() {
    let scraper = ChessEventScraper::Jcf(EventScraperJcf);
    assert!(scraper.unit_event(&jcf_unit("A", "2024/1/8-1/7")).is_none());
    assert!(scraper.unit_event(&jcf_unit("A", "2024/12/31-1/1")).is_none());
    assert!(scraper.unit_event(&jcf_unit("A", "2024/12/31-2025/1/1")).is_some());
    assert!(scraper.unit_event(&jcf_unit("A", "2024/1/7-1/7")).is_some());
}
