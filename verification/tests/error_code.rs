use todo_ci::cli::{Args, DisplayMode};
use todo_ci::date::{CalendarDate, UtcOffset};
use todo_ci::display::ReportLine;
use todo_ci::scan::{SearchError, TodoStatistics};
use todo_ci::walk::FileEntry;
use todo_ci::{exit_code, run, run_at, RunOutcome};

fn args(no_error: bool) -> Args {
    Args {
        no_ignore: false,
        no_error,
        display_mode: DisplayMode::Default,
        root_directory: "./".to_string(),
        ignore_pattern: "*".to_string(),
        timezone_offset: UtcOffset::east(0).unwrap(),
    }
}

/// What a walk of the directory hands over: one file with an overdue marker
/// on line 3 and a valid one on line 4.
fn fixtures() -> Vec<FileEntry> {
    vec![
        FileEntry { path: "./".to_string(), is_file: false, contents: None },
        FileEntry {
            path: "./error_code_file_with_todos.rs".to_string(),
            is_file: true,
            contents: Some(
                "fn main() {\n    println!(\"Hello World!\");\n    // @todo(1991-07-10): Print something else\n    // @todo(2221-07-10): And something more\n}\n"
                    .to_string(),
            ),
        },
    ]
}

fn stdout(outcome: &RunOutcome) -> String {
    let mut output = String::new();
    for line in &outcome.report {
        output.push_str(&line.text());
        output.push('\n');
    }
    output
}

#[test]
fn test_error_code_emitted_if_overdue_todos_found() {
    let outcome = run(&args(false), &fixtures()).unwrap();
    let output = stdout(&outcome);
    assert!(output.contains("error_code_file_with_todos.rs:3"));
    assert!(output.contains("error_code_file_with_todos.rs:4"));
    assert!(output.contains("2 todo(s) found"));
    assert_ne!(outcome.exit_code, 0);
    assert_eq!(outcome.exit_code, 1);
}

#[test]
fn test_error_code_can_be_supressed() {
    let outcome = run(&args(true), &fixtures()).unwrap();
    let output = stdout(&outcome);
    assert!(output.contains("error_code_file_with_todos.rs:3"));
    assert!(output.contains("error_code_file_with_todos.rs:4"));
    assert!(output.contains("2 todo(s) found"));
    assert_eq!(outcome.exit_code, 0);
}

#[test]
fn the_run_fails_only_where_an_item_is_overdue() {
    let statistics = |overdue: usize| TodoStatistics {
        files_searched: 4,
        valid_todo_count: 2,
        overdue_todo_count: overdue,
        malformed_todo_count: 3,
    };
    assert_eq!(exit_code(&statistics(0), false), 0);
    assert_eq!(exit_code(&statistics(0), true), 0);
    assert_eq!(exit_code(&statistics(1), false), 1);
    assert_eq!(exit_code(&statistics(1), true), 0);
    assert_eq!(exit_code(&statistics(7), false), 1);

    // Before the first date and after the second, on the days themselves and between.
    let at = |year: i32| {
        let today = CalendarDate::from_ymd(year, 7, 10).unwrap();
        run_at(&args(false), &fixtures(), &today).unwrap().exit_code
    };
    assert_eq!(at(1990), 0);
    assert_eq!(at(1991), 0);
    assert_eq!(at(1992), 1);
    assert_eq!(at(2221), 1);
    assert_eq!(at(2222), 1);
}

#[test]
fn a_run_reports_in_the_mode_of_its_options() {
    let today = CalendarDate::from_ymd(2024, 1, 10).unwrap();
    let mut options = args(false);
    options.display_mode = DisplayMode::Concise;
    let outcome = run_at(&options, &fixtures(), &today).unwrap();
    assert_eq!(stdout(&outcome), "Searched 1 file(s):\n2 todo(s) found of which 1 is/are overdue\n");
    assert_eq!(outcome.exit_code, 1);

    options.display_mode = DisplayMode::OverdueOnly;
    let outcome = run_at(&options, &fixtures(), &today).unwrap();
    assert_eq!(
        stdout(&outcome),
        "TODO@  ./error_code_file_with_todos.rs:3 [overdue]\n  Due:         1991-07-10 (-11872 days)\n  Description: Print something else\n\nSearched 1 file(s):\n2 todo(s) found of which 1 is/are overdue\n"
    );
    assert!(matches!(outcome.report[0], ReportLine::Header { .. }));
}

#[test]
fn a_run_fails_as_its_scan_fails() {
    let today = CalendarDate::from_ymd(2024, 1, 10).unwrap();
    let mut options = args(true);
    options.ignore_pattern = "[".to_string();
    assert!(matches!(run_at(&options, &fixtures(), &today), Err(SearchError::InvalidPattern)));
    assert!(matches!(run(&options, &fixtures()), Err(SearchError::InvalidPattern)));

    options.ignore_pattern = "*".to_string();
    let mut entries = fixtures();
    entries.push(FileEntry { path: "./binary".to_string(), is_file: true, contents: None });
    match run_at(&options, &entries, &today) {
        Err(SearchError::UnreadableFile { path }) => assert_eq!(path, "./binary"),
        other => panic!("gave {:?}", other),
    }
}
