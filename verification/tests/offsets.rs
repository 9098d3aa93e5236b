use todo_ci::cli::{FixedOffsetParser, OffsetError};
use todo_ci::date::UtcOffset;

fn parse(text: &str) -> Result<UtcOffset, OffsetError> {
    FixedOffsetParser.parse_ref(text)
}

fn seconds(text: &str) -> i32 {
    parse(text).unwrap().local_minus_utc
}

#[test]
fn offsets_east_and_west() {
    assert_eq!(seconds("+00:00"), 0);
    assert_eq!(seconds("-00:00"), 0);
    assert_eq!(seconds("+01:00"), 3600);
    assert_eq!(seconds("-05:00"), -18_000);
    assert_eq!(seconds("+05:30"), 19_800);
    assert_eq!(seconds("-09:45"), -35_100);
    assert_eq!(seconds("+19:07"), 68_820);
    assert_eq!(seconds("+23:59"), 86_340);
    assert_eq!(seconds("-23:59"), -86_340);
}

#[test]
fn hours_end_at_23_and_minutes_at_59() {
    assert_eq!(parse("+24:00"), Err(OffsetError));
    assert_eq!(parse("+30:00"), Err(OffsetError));
    assert_eq!(parse("+05:60"), Err(OffsetError));
    assert_eq!(parse("+05:99"), Err(OffsetError));
}

#[test]
fn texts_without_an_offset_are_errors() {
    assert_eq!(parse(""), Err(OffsetError));
    assert_eq!(parse("05:00"), Err(OffsetError));
    assert_eq!(parse("+5:00"), Err(OffsetError));
    assert_eq!(parse("+0500"), Err(OffsetError));
    assert_eq!(parse("+05:0"), Err(OffsetError));
    assert_eq!(parse("+05-00"), Err(OffsetError));
    assert_eq!(parse("*05:00"), Err(OffsetError));
    assert_eq!(parse("+aa:bb"), Err(OffsetError));
    assert_eq!(parse("+٠٥:٠٠"), Err(OffsetError));
    assert_eq!(parse("UTC"), Err(OffsetError));
}

#[test]
fn the_whole_text_must_be_the_offset() {
    assert_eq!(parse("x+05:00"), Err(OffsetError));
    assert_eq!(parse("+05:00x"), Err(OffsetError));
    assert_eq!(parse(" +05:00"), Err(OffsetError));
    assert_eq!(parse("+05:00 "), Err(OffsetError));
    assert_eq!(parse("+05:00\n"), Err(OffsetError));
    assert_eq!(parse("UTC+02:00"), Err(OffsetError));
    assert_eq!(parse("+02:00 or so"), Err(OffsetError));
    assert_eq!(parse("+25:00-01:00"), Err(OffsetError));
    assert_eq!(parse("+01:00-02:00"), Err(OffsetError));
    assert_eq!(parse("++03:00"), Err(OffsetError));
    assert_eq!(parse("é+04:00"), Err(OffsetError));
    assert_eq!(parse("+04:00é"), Err(OffsetError));
    assert_eq!(parse("+05:000"), Err(OffsetError));
    assert_eq!(parse("+005:00"), Err(OffsetError));
}

#[test]
fn the_error_says_what_the_format_is() {
    assert_eq!(
        parse("tomorrow").unwrap_err().message(),
        "UTC offset does not follow the format [+|-][HH]:[SS]"
    );
}
