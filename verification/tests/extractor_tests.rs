use chess_events::club8x8::{DATE_LABEL, LOCATION_LABEL, OPEN_TIME_PATTERN};
use chess_events::extractor::{date_fragment, labelled_value, matches_shape};

#[test]
fn a_labelled_value_loses_its_label_and_the_space_around_it() {
    assert_eq!(labelled_value("場所: 東京都千代田区 ", LOCATION_LABEL), Some("東京都千代田区"));
    assert_eq!(labelled_value("\n 場所:東京\n", LOCATION_LABEL), Some("東京"));
    assert_eq!(labelled_value("場所:", LOCATION_LABEL), Some(""));
    assert_eq!(labelled_value("場所:場所: 東京", LOCATION_LABEL), Some("東京"));
}

#[test]
fn a_text_without_the_label_holds_no_value() {
    assert_eq!(labelled_value("東京都千代田区", LOCATION_LABEL), None);
    assert_eq!(labelled_value("", LOCATION_LABEL), None);
    assert_eq!(labelled_value("場所 東京", LOCATION_LABEL), None);
}

#[test]
fn a_label_inside_the_text_counts_but_is_not_stripped() {
    assert_eq!(labelled_value(" 会場の場所: 東京 ", LOCATION_LABEL), Some("会場の場所: 東京"));
}

#[test]
fn a_date_fragment_ends_before_the_first_parenthesis_of_either_form() {
    assert_eq!(date_fragment("日時: 2024年1月7日(日) (定員10名)", DATE_LABEL), Some("2024年1月7日"));
    assert_eq!(date_fragment("日時: 2024年1月7日 （定員10名）", DATE_LABEL), Some("2024年1月7日"));
    assert_eq!(date_fragment("日時: 2024年1月7日（日）(定員10名)", DATE_LABEL), Some("2024年1月7日"));
    assert_eq!(date_fragment("日時: 2024年1月7日", DATE_LABEL), Some("2024年1月7日"));
    assert_eq!(date_fragment("2024年1月7日(日)", DATE_LABEL), None);
}

#[test]
fn an_opening_time_has_two_times_of_two_digits_each() {
    assert!(matches_shape("13時00分〜17時00分", OPEN_TIME_PATTERN));
    assert!(matches_shape("  開場 13時00分〜17時00分 (予定)", OPEN_TIME_PATTERN));
    assert!(matches_shape("１３時００分〜１７時００分", OPEN_TIME_PATTERN));
    assert!(!matches_shape("13時〜17時", OPEN_TIME_PATTERN));
    assert!(!matches_shape("9時00分〜17時00分", OPEN_TIME_PATTERN));
    assert!(!matches_shape("13時00分-17時00分", OPEN_TIME_PATTERN));
    assert!(!matches_shape("13:00〜17:00", OPEN_TIME_PATTERN));
    assert!(!matches_shape("", OPEN_TIME_PATTERN));
}

#[test]
fn a_pattern_that_is_no_regular_expression_describes_nothing() {
    assert!(!matches_shape("(", "("));
    assert!(!matches_shape("abc", "[a"));
    assert!(matches_shape("abc", "b"));
    assert!(!matches_shape("abc", "^b"));
}
