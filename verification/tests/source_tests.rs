use chess_events::calendar::CalendarDate;
use chess_events::club8x8::EventScraperClub8x8;
use chess_events::document::{HtmlPart, HtmlUnit};
use chess_events::event::Candidate;
use chess_events::jcf::EventScraperJcf;
use chess_events::kitasenjyu::EventScraperKitasenjyu;

fn ymd(year: i32, month: u32, day: u32) -> CalendarDate {
    CalendarDate::from_ymd_opt(year, month, day).unwrap()
}

fn part(class: Option<&str>, text: &str) -> HtmlPart {
    HtmlPart { class: class.map(String::from), text: String::from(text) }
}

fn unit(text: &str, parts: Vec<HtmlPart>) -> HtmlUnit {
    HtmlUnit { text: String::from(text), parts }
}

fn paragraphs(texts: &[&str]) -> HtmlUnit {
    unit("", texts.iter().map(|t| part(None, t)).collect())
}

#[test]
fn club8x8_reads_a_date_with_markers() {
    assert_eq!(EventScraperClub8x8::naive_date_from_str("2024年1月7日(日)"), ymd(2024, 1, 7));
    assert_eq!(EventScraperClub8x8::naive_date_from_str("２０２４年１２月３１日"), ymd(2024, 12, 31));
    assert!(EventScraperClub8x8::naive_date_from_str("2024年2月30日").is_sentinel());
}

#[test]
fn club8x8_article_with_all_four_paragraphs_is_an_event() {
    let article = paragraphs(&[
        "新年最初の例会です",
        "日時: 2024年1月7日(日) (定員10名)",
        " 13時00分〜17時00分 ",
        "場所: 東京都千代田区",
        "参加費: 500円",
    ]);
    let event = EventScraperClub8x8::unit_event(&article).unwrap();
    assert_eq!(event.name(), "meeting");
    assert_eq!(event.organizer(), "8x8 chess club");
    assert_eq!(event.start_date(), ymd(2024, 1, 7));
    assert_eq!(event.end_date(), ymd(2024, 1, 7));
    assert_eq!(event.open_time(), "13時00分〜17時00分");
    assert_eq!(event.revenue(), "東京都千代田区");
    assert_eq!(event.fee(), "500円");
}

#[test]
fn club8x8_unit_with_only_an_opening_time_is_dropped() {
    let article = paragraphs(&["13時00分〜17時00分"]);
    let candidate = EventScraperClub8x8::unit_candidate(&article);
    assert_eq!(candidate.open_time, "13時00分〜17時00分");
    assert!(candidate.start_date.is_sentinel());
    assert_eq!(candidate.revenue, "");
    assert_eq!(candidate.fee, "");
    assert!(EventScraperClub8x8::unit_event(&article).is_none());
}

#[test]
fn club8x8_article_that_lacks_one_paragraph_is_dropped() {
    let all = ["日時: 2024年1月7日(日)", "13時00分〜17時00分", "場所: 東京", "参加費: 500円"];
    for missing in 0..all.len() {
        let kept: Vec<&str> =
            all.iter().enumerate().filter(|(i, _)| *i != missing).map(|(_, t)| *t).collect();
        assert!(EventScraperClub8x8::unit_event(&paragraphs(&kept)).is_none(), "{}", missing);
    }
    assert!(EventScraperClub8x8::unit_event(&paragraphs(&all)).is_some());
    assert!(EventScraperClub8x8::unit_event(&paragraphs(&[])).is_none());
}

#[test]
fn club8x8_article_whose_date_names_no_day_is_dropped() {
    let article =
        paragraphs(&["日時: 2024年4月31日(水)", "13時00分〜17時00分", "場所: 東京", "参加費: 500円"]);
    assert!(EventScraperClub8x8::unit_event(&article).is_none());
}

#[test]
fn club8x8_later_paragraphs_take_the_place_of_earlier_ones() {
    let article = paragraphs(&[
        "場所: 東京",
        "日時: 2024年1月7日(日)",
        "参加費: 500円",
        "13時00分〜17時00分",
        "場所: 大阪",
        "日時: 2024年2月4日(日)",
    ]);
    let event = EventScraperClub8x8::unit_event(&article).unwrap();
    assert_eq!(event.revenue(), "大阪");
    assert_eq!(event.start_date(), ymd(2024, 2, 4));
    assert_eq!(event.end_date(), ymd(2024, 2, 4));
}

#[test]
fn club8x8_paragraph_may_hold_several_fields() {
    let candidate = EventScraperClub8x8::read_paragraph(
        Candidate::empty(),
        "日時: 2024年1月7日(日) 13時00分〜17時00分",
    );
    assert_eq!(candidate.start_date, ymd(2024, 1, 7));
    assert_eq!(candidate.end_date, ymd(2024, 1, 7));
    assert_eq!(candidate.open_time, "日時: 2024年1月7日(日) 13時00分〜17時00分");
    assert_eq!(candidate.revenue, "");
}

#[test]
fn club8x8_absorbs_a_paragraph_as_it_is_told_of_its_shape() {
    let with = EventScraperClub8x8::absorb_paragraph(Candidate::empty(), " 午後 ", true);
    assert_eq!(with.open_time, "午後");
    let without =
        EventScraperClub8x8::absorb_paragraph(Candidate::empty(), "13時00分〜17時00分", false);
    assert_eq!(without.open_time, "");
    let fee = EventScraperClub8x8::absorb_paragraph(Candidate::empty(), "参加費: 無料", false);
    assert_eq!(fee.fee, "無料");
    assert_eq!(fee.revenue, "");
    assert!(fee.start_date.is_sentinel());
}

#[test]
fn kitasenjyu_reads_a_month_and_a_day_of_2024() {
    assert_eq!(EventScraperKitasenjyu::naive_date_from_str("７／２７（土）"), ymd(2024, 7, 27));
    assert_eq!(EventScraperKitasenjyu::naive_date_from_str("1/20(土)"), ymd(2024, 1, 20));
    assert_eq!(EventScraperKitasenjyu::reference_date(), ymd(2024, 1, 1));
    assert!(EventScraperKitasenjyu::naive_date_from_str("2/30").is_sentinel());
}

#[test]
fn kitasenjyu_block_with_a_schedule_line_is_an_event() {
    let block = unit(
        "公式戦例会予定\n日本チェス連盟公式戦２Ｒ\u{3000}７／２７（土）\u{3000}13:00〜17:00\u{3000}北千住\n以上",
        Vec::new(),
    );
    let event = EventScraperKitasenjyu::unit_event(&block).unwrap();
    assert_eq!(event.name(), "meeting");
    assert_eq!(event.organizer(), "kita-senjyu chess club");
    assert_eq!(event.start_date(), ymd(2024, 7, 27));
    assert_eq!(event.end_date(), ymd(2024, 7, 27));
    assert_eq!(event.open_time(), "13:00〜17:00");
    assert_eq!(event.revenue(), "北千住");
    assert_eq!(event.fee(), "unknown");
}

#[test]
fn kitasenjyu_block_without_its_marker_is_passed_over() {
    let block = unit(
        "お知らせ\n日本チェス連盟公式戦２Ｒ\u{3000}７／２７（土）\u{3000}13:00〜17:00\u{3000}北千住",
        Vec::new(),
    );
    assert!(EventScraperKitasenjyu::unit_event(&block).is_none());
    let candidate = EventScraperKitasenjyu::unit_candidate(&block);
    assert!(candidate.start_date.is_sentinel());
    assert_eq!(candidate.open_time, "");
}

#[test]
fn kitasenjyu_block_without_a_schedule_line_is_dropped() {
    let block = unit("公式戦例会予定\n未定", Vec::new());
    assert!(EventScraperKitasenjyu::unit_event(&block).is_none());
}

#[test]
fn kitasenjyu_last_schedule_line_counts() {
    let block = unit(
        "公式戦例会予定\r\n日本チェス連盟公式戦２Ｒ\u{3000}７／２７（土）\u{3000}13:00〜17:00\u{3000}北千住\r\n日本チェス連盟公式戦２Ｒ\u{3000}８／２４（土）\u{3000}10:00〜12:00\u{3000}南千住\r\n",
        Vec::new(),
    );
    let event = EventScraperKitasenjyu::unit_event(&block).unwrap();
    assert_eq!(event.start_date(), ymd(2024, 8, 24));
    assert_eq!(event.open_time(), "10:00〜12:00");
    assert_eq!(event.revenue(), "南千住");
    let lines = vec!["a", "日本チェス連盟公式戦２Ｒ 1", "b", "日本チェス連盟公式戦２Ｒ 2", "c"];
    assert_eq!(EventScraperKitasenjyu::schedule_line(&lines), Some("日本チェス連盟公式戦２Ｒ 2"));
    assert_eq!(EventScraperKitasenjyu::schedule_line(&vec!["a", "b"]), None);
    assert_eq!(EventScraperKitasenjyu::schedule_line(&Vec::new()), None);
}

#[test]
fn kitasenjyu_line_with_fewer_than_four_fields_gives_nothing() {
    let short = EventScraperKitasenjyu::line_candidate("日本チェス連盟公式戦２Ｒ\u{3000}７／２７（土）\u{3000}13:00〜17:00");
    assert!(short.start_date.is_sentinel());
    assert_eq!(short.open_time, "");
    assert_eq!(short.revenue, "");
    let block = unit(
        "公式戦例会予定\n日本チェス連盟公式戦２Ｒ\u{3000}７／２７（土）\u{3000}13:00〜17:00",
        Vec::new(),
    );
    assert!(EventScraperKitasenjyu::unit_event(&block).is_none());
}

#[test]
fn kitasenjyu_line_with_an_empty_field_is_dropped() {
    let block = unit(
        "公式戦例会予定\n日本チェス連盟公式戦２Ｒ\u{3000}７／２７（土）\u{3000}\u{3000}北千住",
        Vec::new(),
    );
    let candidate = EventScraperKitasenjyu::unit_candidate(&block);
    assert_eq!(candidate.start_date, ymd(2024, 7, 27));
    assert_eq!(candidate.open_time, "");
    assert_eq!(candidate.revenue, "北千住");
    assert!(EventScraperKitasenjyu::unit_event(&block).is_none());
}

#[test]
fn jcf_reads_a_date_against_the_start() {
    let start = ymd(2024, 1, 7);
    assert_eq!(EventScraperJcf::naive_date_from_str("2024/1/20(土)", start), ymd(2024, 1, 20));
    assert_eq!(EventScraperJcf::naive_date_from_str("1/8(月祝)", start), ymd(2024, 1, 8));
    assert_eq!(EventScraperJcf::naive_date_from_str("9(火)", start), ymd(2024, 1, 9));
}

#[test]
fn jcf_box_with_name_and_days_is_an_event() {
    let tournament = unit(
        "",
        vec![
            part(Some("tournamentname"), "新春オープン"),
            part(Some("place"), "東京"),
            part(Some("gamedate"), "2024/1/7(日)-1/8(月祝)"),
            part(None, "備考"),
        ],
    );
    let event = EventScraperJcf::unit_event(&tournament).unwrap();
    assert_eq!(event.name(), "新春オープン");
    assert_eq!(event.organizer(), "Japan Chess Federation");
    assert_eq!(event.start_date(), ymd(2024, 1, 7));
    assert_eq!(event.end_date(), ymd(2024, 1, 8));
    assert_eq!(event.open_time(), "unknown");
    assert_eq!(event.revenue(), "unknown");
    assert_eq!(event.fee(), "unknown");
}

#[test]
fn jcf_box_with_a_single_day_starts_and_ends_on_it() {
    let tournament = unit(
        "",
        vec![part(Some("gamedate"), "2024/1/20(土)"), part(Some("tournamentname"), "月例会")],
    );
    let event = EventScraperJcf::unit_event(&tournament).unwrap();
    assert_eq!(event.start_date(), ymd(2024, 1, 20));
    assert_eq!(event.end_date(), ymd(2024, 1, 20));
    assert_eq!(event.name(), "月例会");
}

#[test]
fn jcf_box_without_name_or_days_is_dropped() {
    let nameless = unit("", vec![part(Some("gamedate"), "2024/1/20(土)")]);
    assert!(EventScraperJcf::unit_event(&nameless).is_none());
    let dateless = unit("", vec![part(Some("tournamentname"), "月例会")]);
    assert!(EventScraperJcf::unit_event(&dateless).is_none());
    let empty_name = unit(
        "",
        vec![part(Some("tournamentname"), ""), part(Some("gamedate"), "2024/1/20(土)")],
    );
    assert!(EventScraperJcf::unit_event(&empty_name).is_none());
    assert!(EventScraperJcf::unit_event(&unit("", Vec::new())).is_none());
}

#[test]
fn jcf_class_must_be_the_whole_attribute() {
    let tournament = unit(
        "",
        vec![
            part(Some("tournamentname big"), "新春オープン"),
            part(Some("gamedate"), "2024/1/20(土)"),
        ],
    );
    assert!(EventScraperJcf::unit_event(&tournament).is_none());
    let candidate = EventScraperJcf::read_part(Candidate::empty(), &part(None, "2024/1/20(土)"));
    assert!(candidate.start_date.is_sentinel());
    assert_eq!(candidate.name, "");
}

#[test]
fn jcf_days_that_name_no_day_drop_the_box() {
    let tournament = unit(
        "",
        vec![part(Some("tournamentname"), "月例会"), part(Some("gamedate"), "2024/2/30(金)")],
    );
    assert!(EventScraperJcf::unit_event(&tournament).is_none());
    let end = unit(
        "",
        vec![part(Some("tournamentname"), "月例会"), part(Some("gamedate"), "2024/2/28(水)-30(金)")],
    );
    let candidate = EventScraperJcf::unit_candidate(&end);
    assert_eq!(candidate.start_date, ymd(2024, 2, 28));
    assert!(candidate.end_date.is_sentinel());
    assert!(EventScraperJcf::unit_event(&end).is_none());
}
