use time::format_description::well_known::Iso8601;
use todo_ci::date::CalendarDate;
use todo_ci::listing::{
    list_marker, search_all_files_for_todos, search_file_for_todos, TodoSearchResult,
};
use todo_ci::marker::FoundMarker;
use todo_ci::walk::FileEntry;

fn day(year: i32, month: u32, day: u32) -> CalendarDate {
    CalendarDate::from_ymd(year, month, day).unwrap()
}

fn todo(file: &str, line_number: usize, date: CalendarDate, description: &str) -> TodoSearchResult {
    TodoSearchResult::Todo {
        file: file.to_string(),
        line_number,
        date,
        description: description.to_string(),
    }
}

fn parse_error(file: &str, line_number: usize, error: &str) -> TodoSearchResult {
    TodoSearchResult::ParseError { file: file.to_string(), line_number, error: error.to_string() }
}

#[test]
fn a_listing_keeps_the_date_and_the_trimmed_description() {
    let text = "// @todo(2022-12-24): wrap the presents \n\n// @todo(XX-XX-XX-X): broken\n@todo(1991-07-10):";
    assert_eq!(
        search_file_for_todos("./a.rs", text),
        vec![
            todo("./a.rs", 1, day(2022, 12, 24), "wrap the presents"),
            parse_error("./a.rs", 3, "XX-XX-XX-X is not a valid date."),
            todo("./a.rs", 4, day(1991, 7, 10), ""),
        ]
    );
    assert_eq!(
        search_file_for_todos("f", "\n\n\n// @todo(2221-07-10): I am a valid TODO on line 4\n"),
        vec![todo("f", 4, day(2221, 7, 10), "I am a valid TODO on line 4")]
    );
    assert_eq!(
        search_file_for_todos("f", "@todo(2221-07-10):\t\u{a0} spaced  out \u{3000}\r\n"),
        vec![todo("f", 1, day(2221, 7, 10), "spaced  out")]
    );
    assert_eq!(search_file_for_todos("./a.rs", ""), vec![]);
    assert_eq!(search_file_for_todos("./a.rs", "no marker\n"), vec![]);
}

#[test]
fn dates_are_read_as_the_time_crate_reads_iso_8601() {
    for field in [
        "2022-12-24",
        "2024-02-29",
        "2023-02-29",
        "2024-W02-3",
        "2024-001  ",
        "0000-01-01",
        "9999-12-31",
        "24/12/2022",
        "2022-13-01",
        " 2022-1-01",
    ] {
        let expected = match time::Date::parse(field, &Iso8601::DEFAULT) {
            Ok(date) => todo(
                "f",
                1,
                day(date.year(), u8::from(date.month()) as u32, date.day() as u32),
                "x",
            ),
            Err(_) => parse_error("f", 1, &format!("{} is not a valid date.", field)),
        };
        assert_eq!(
            search_file_for_todos("f", &format!("@todo({}): x", field)),
            vec![expected],
            "{:?}",
            field
        );
    }
    assert_eq!(
        search_file_for_todos("f", "@todo(2023-02-29): x"),
        vec![parse_error("f", 1, "2023-02-29 is not a valid date.")]
    );
    assert_eq!(
        search_file_for_todos("f", "@todo(2024-02-29): x"),
        vec![todo("f", 1, day(2024, 2, 29), "x")]
    );
}

#[test]
fn list_marker_goes_by_what_the_date_field_was_read_as() {
    let found = FoundMarker {
        line_number: 9,
        date: "2022-12-24".to_string(),
        rest: " text ".to_string(),
    };
    assert_eq!(
        list_marker(&found, "f", Some(day(2022, 12, 24))),
        todo("f", 9, day(2022, 12, 24), "text")
    );
    assert_eq!(
        list_marker(&found, "f", None),
        parse_error("f", 9, "2022-12-24 is not a valid date.")
    );
}

#[test]
fn all_regular_files_are_listed() {
    let file = |path: &str, text: &str| FileEntry {
        path: path.to_string(),
        is_file: true,
        contents: Some(text.to_string()),
    };
    let entries = vec![
        FileEntry { path: ".".to_string(), is_file: false, contents: None },
        file("./a.rs", "@todo(2022-12-24): a\n"),
        file("./.tdignore", "@todo(2022-12-25): in the ignore file\n"),
        file("./empty", ""),
        file("./b.txt", "\n@todo(not a date): b\n@todo(2022-12-26): c\n"),
    ];
    assert_eq!(
        search_all_files_for_todos(&entries),
        vec![
            todo("./a.rs", 1, day(2022, 12, 24), "a"),
            todo("./.tdignore", 1, day(2022, 12, 25), "in the ignore file"),
            parse_error("./b.txt", 2, "not a date is not a valid date."),
            todo("./b.txt", 3, day(2022, 12, 26), "c"),
        ]
    );
    assert_eq!(search_all_files_for_todos(&Vec::new()), vec![]);
}
