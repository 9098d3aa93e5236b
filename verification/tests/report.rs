use todo_ci::cli::DisplayMode;
use todo_ci::date::CalendarDate;
use todo_ci::display::{is_shown, print_at, print_single, ReportLine, Style};
use todo_ci::scan::{search_at, SearchResult, Todo, TodoState};
use todo_ci::walk::FileEntry;

fn day(year: i32, month: u32, day: u32) -> CalendarDate {
    CalendarDate::from_ymd(year, month, day).unwrap()
}

fn texts(lines: &[ReportLine]) -> Vec<String> {
    lines.iter().map(|line| line.text()).collect()
}

fn sample() -> SearchResult {
    let entries = vec![
        FileEntry {
            path: "./a.rs".to_string(),
            is_file: true,
            contents: Some(
                "@todo(2024-01-11): tomorrow\n@todo(2024-01-09): yesterday\n@todo(soon-ish!!): some day\n@todo(2024-01-10): today\n"
                    .to_string(),
            ),
        },
        FileEntry { path: "./b.rs".to_string(), is_file: true, contents: Some(String::new()) },
    ];
    search_at(&entries, "*", &day(2024, 1, 10)).unwrap()
}

const TOTALS: [&str; 2] = ["Searched 2 file(s):", "3 todo(s) found of which 1 is/are overdue"];

#[test]
fn concise_mode_gives_the_totals_alone() {
    let lines = print_at(DisplayMode::Concise, &sample(), &day(2024, 1, 10));
    assert_eq!(texts(&lines), TOTALS);
}

#[test]
fn default_mode_tells_of_every_item() {
    let lines = print_at(DisplayMode::Default, &sample(), &day(2024, 1, 10));
    assert_eq!(
        texts(&lines),
        vec![
            "TODO@  ./a.rs:1",
            "  Due:         2024-01-11 (1 days)",
            "  Description: tomorrow",
            "",
            "TODO@  ./a.rs:2 [overdue]",
            "  Due:         2024-01-09 (-1 days)",
            "  Description: yesterday",
            "",
            "TODO@  ./a.rs:3 is malformed!",
            "  Description: soon-ish!! is not a valid date.",
            "",
            "TODO@  ./a.rs:4",
            "  Due:         2024-01-10 (0 days)",
            "  Description: today",
            "",
            TOTALS[0],
            TOTALS[1],
        ]
    );
    assert!(texts(&lines)[1].starts_with(&format!("  Due:{} 2024", " ".repeat(8))));
}

#[test]
fn overdue_only_mode_tells_of_what_is_overdue_or_malformed() {
    let lines = print_at(DisplayMode::OverdueOnly, &sample(), &day(2024, 1, 10));
    assert_eq!(
        texts(&lines),
        vec![
            "TODO@  ./a.rs:2 [overdue]",
            "  Due:         2024-01-09 (-1 days)",
            "  Description: yesterday",
            "",
            "TODO@  ./a.rs:3 is malformed!",
            "  Description: soon-ish!! is not a valid date.",
            "",
            TOTALS[0],
            TOTALS[1],
        ]
    );
}

#[test]
fn every_mode_ends_with_the_same_totals() {
    for today in [day(2024, 1, 9), day(2024, 1, 10), day(2030, 1, 1)] {
        for mode in [DisplayMode::Concise, DisplayMode::OverdueOnly, DisplayMode::Default] {
            let all = texts(&print_at(mode, &sample(), &today));
            assert_eq!(all[all.len() - 2..], TOTALS);
        }
    }
    assert!(!is_shown(DisplayMode::Concise, TodoState::Valid));
    assert!(!is_shown(DisplayMode::Concise, TodoState::Overdue));
    assert!(!is_shown(DisplayMode::Concise, TodoState::Malformed));
    assert!(!is_shown(DisplayMode::OverdueOnly, TodoState::Valid));
    assert!(is_shown(DisplayMode::OverdueOnly, TodoState::Overdue));
    assert!(is_shown(DisplayMode::OverdueOnly, TodoState::Malformed));
    assert!(is_shown(DisplayMode::Default, TodoState::Valid));
    assert!(is_shown(DisplayMode::Default, TodoState::Overdue));
    assert!(is_shown(DisplayMode::Default, TodoState::Malformed));
}

#[test]
fn overdue_items_are_left_out_of_the_totals_line_where_there_are_none() {
    let entries = vec![FileEntry {
        path: "a.rs".to_string(),
        is_file: true,
        contents: Some("@todo(2030-01-01): later\n@todo(XXXXXXXXXX): never\n".to_string()),
    }];
    let found = search_at(&entries, "*", &day(2024, 1, 10)).unwrap();
    let lines = print_at(DisplayMode::Concise, &found, &day(2024, 1, 10));
    assert_eq!(texts(&lines), vec!["Searched 1 file(s):", "1 todo(s) found"]);

    let nothing = search_at(&Vec::new(), "*", &day(2024, 1, 10)).unwrap();
    let lines = print_at(DisplayMode::Default, &nothing, &day(2024, 1, 10));
    assert_eq!(texts(&lines), vec!["Searched 0 file(s):", "0 todo(s) found"]);
}

#[test]
fn print_single_appends_the_lines_of_one_item() {
    let mut lines = vec![ReportLine::Blank];
    let todo = Todo {
        file: "dir/x.rs".to_string(),
        line_number: 12,
        date: Some(day(2024, 3, 1)),
        description: "leap".to_string(),
        state: TodoState::Valid,
    };
    print_single(&mut lines, &todo, &day(2024, 2, 28));
    assert_eq!(
        texts(&lines),
        vec!["", "TODO@  dir/x.rs:12", "  Due:         2024-03-01 (2 days)", "  Description: leap", ""]
    );
    match &lines[2] {
        ReportLine::Due { date, days_left } => {
            assert_eq!(*date, day(2024, 3, 1));
            assert_eq!(*days_left, 2);
        }
        other => panic!("gave {:?}", other),
    }
    match &lines[3] {
        ReportLine::Description { malformed, text } => {
            assert!(!malformed);
            assert_eq!(text, "leap");
        }
        other => panic!("gave {:?}", other),
    }
}

#[test]
fn the_parts_of_a_line_say_what_the_line_says() {
    let today = day(2024, 1, 10);
    let lines = print_at(DisplayMode::Default, &sample(), &today);
    for line in &lines {
        let joined: String = line.spans().iter().map(|span| span.text.as_str()).collect();
        assert_eq!(joined, line.text());
    }
    let parts = |line: &ReportLine| -> Vec<(Style, String)> {
        line.spans().into_iter().map(|span| (span.style, span.text)).collect()
    };
    let part = |style: Style, text: &str| (style, text.to_string());
    assert_eq!(
        parts(&lines[0]),
        vec![part(Style::Bold, "TODO@"), part(Style::Plain, " "), part(Style::Underline, " ./a.rs:1")]
    );
    assert_eq!(
        parts(&lines[1]),
        vec![
            part(Style::Plain, "  "),
            part(Style::MagentaDimmed, "Due:        "),
            part(Style::Plain, " 2024-01-11 (1 days)"),
        ]
    );
    assert_eq!(
        parts(&lines[2]),
        vec![
            part(Style::Plain, "  "),
            part(Style::BlueDimmed, "Description:"),
            part(Style::Plain, " tomorrow"),
        ]
    );
    assert_eq!(parts(&lines[3]), vec![]);
    assert_eq!(
        parts(&lines[4]),
        vec![
            part(Style::BoldRed, "TODO@ "),
            part(Style::BoldRedUnderline, " ./a.rs:2"),
            part(Style::BoldRed, " [overdue]"),
        ]
    );
    assert_eq!(
        parts(&lines[8]),
        vec![
            part(Style::BoldYellow, "TODO@ "),
            part(Style::BoldYellowUnderline, " ./a.rs:3"),
            part(Style::BoldYellow, " is malformed!"),
        ]
    );
    assert_eq!(
        parts(&lines[9]),
        vec![
            part(Style::Plain, "  "),
            part(Style::YellowDimmed, "Description:"),
            part(Style::Plain, " soon-ish!! is not a valid date."),
        ]
    );
    assert_eq!(parts(&lines[15]), vec![part(Style::GreenIntense, "Searched 2 file(s):")]);
    assert_eq!(
        parts(&lines[16]),
        vec![
            part(Style::Bold, "3 todo(s) found"),
            part(Style::BoldRed, " of which 1 is/are overdue"),
        ]
    );
    assert_eq!(
        parts(&ReportLine::Found { todos: 4, overdue: 0 }),
        vec![part(Style::Bold, "4 todo(s) found")]
    );
}
