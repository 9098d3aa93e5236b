//! Finds dated `@todo(YYYY-MM-DD): text` markers in the files of a tree and
//! tells which of them are overdue.
//!
//! The library works on plain values: the entries of a walk with their texts
//! go in, the items found and the lines of the report come out. Walking the
//! tree, reading files and writing to the terminal are left to the caller.
pub mod cli;
pub mod date;
pub mod display;
pub mod listing;
pub mod marker;
pub mod scan;
pub mod text;
pub mod walk;

use crate::cli::Args;
use crate::date::{CalendarDate, UtcInstant};
use crate::display::{line_views, print_at, report, ReportLine, ReportLineView};
use crate::scan::{
    search_at, search_outcome, SearchError, SearchErrorView, StatisticsView, TodoStatistics,
};
use crate::walk::{entry_views, FileEntry, FileEntryView};
use vstd::prelude::*;

verus! {

/// What a run hands to its caller: the lines to write and the status to exit with.
#[derive(Debug)]
pub struct RunOutcome {
    pub report: Vec<ReportLine>,
    pub exit_code: i32,
}

/// A [`RunOutcome`] as a mathematical value.
pub struct RunOutcomeView {
    pub report: Seq<ReportLineView>,
    pub exit_code: int,
}

impl View for RunOutcome {
    type V = RunOutcomeView;

    open spec fn view(&self) -> RunOutcomeView {
        RunOutcomeView { report: line_views(self.report@), exit_code: self.exit_code as int }
    }
}

/// The status of a run that found `statistics`: 1 where an item is overdue
/// and errors are not switched off, else 0.
pub open spec fn exit_status(statistics: StatisticsView, no_error: bool) -> int {
    if statistics.overdue_todo_count > 0 && !no_error {
        1
    } else {
        0
    }
}

/// What a run with the options `args` over `entries` comes to on the day
/// `today`: the report of the scan in the chosen display mode and the exit
/// status, or the error of the scan.
pub open spec fn run_outcome(
    args: Args,
    entries: Seq<FileEntryView>,
    today: CalendarDate,
) -> Result<RunOutcomeView, SearchErrorView> {
    match search_outcome(entries, args.ignore_pattern@, today) {
        Ok(found) => Ok(
            RunOutcomeView {
                report: report(args.display_mode, found, today),
                exit_code: exit_status(found.statistics, args.no_error),
            },
        ),
        Err(e) => Err(e),
    }
}

/// The view of what a run returned.
pub open spec fn run_view(r: Result<RunOutcome, SearchError>) -> Result<
    RunOutcomeView,
    SearchErrorView,
> {
    match r {
        Ok(outcome) => Ok(outcome@),
        Err(e) => Err(e@),
    }
}

/// The status with which a run that found `statistics` exits.
pub fn exit_code(statistics: &TodoStatistics, no_error: bool) -> (r: i32)
    ensures
        r == exit_status(statistics@, no_error),
        r != 0 <==> statistics.overdue_todo_count > 0 && !no_error,
{
    if statistics.overdue_todo_count > 0 && !no_error {
        1
    } else {
        0
    }
}

/// Scans `entries` with the options `args` on the day `today`, and makes the
/// report and the exit status.
pub fn run_at(args: &Args, entries: &Vec<FileEntry>, today: &CalendarDate) -> (r: Result<
    RunOutcome,
    SearchError,
>)
    requires
        today.is_valid(),
    ensures
        run_view(r) == run_outcome(*args, entry_views(entries@), *today),
{
    match search_at(entries, args.ignore_pattern.as_str(), today) {
        Ok(found) => {
            let report = print_at(args.display_mode, &found, today);
            let exit_code = exit_code(&found.statistics, args.no_error);
            Ok(RunOutcome { report, exit_code })
        },
        Err(e) => Err(e),
    }
}

/// Scans `entries` with the options `args` on today's date, as a clock set to
/// the offset of `args` shows it at the moment of the call: [`run_at`] for
/// that date, or the error that the clock could not be read.
pub fn run(args: &Args, entries: &Vec<FileEntry>) -> (r: Result<RunOutcome, SearchError>)
    requires
        args.timezone_offset.is_valid(),
    ensures
        r matches Err(SearchError::Clock) || exists|now: UtcInstant|
            now.is_valid() && run_view(r) == #[trigger] run_outcome(
                *args,
                entry_views(entries@),
                now.local_date(args.timezone_offset),
            ),
{
    match UtcInstant::now() {
        Some(now) => {
            let day = now.date_at(&args.timezone_offset);
            let r = run_at(args, entries, &day);
            assert(run_view(r) == run_outcome(
                *args,
                entry_views(entries@),
                now.local_date(args.timezone_offset),
            ));
            r
        },
        None => Err(SearchError::Clock),
    }
}

/// Whether a run fails, and with which error, depends on the entries, on the
/// pattern and on nothing else among the options: switching the exit status
/// off, or choosing another display mode, neither makes nor hides an error.
pub proof fn lemma_errors_are_not_suppressed(
    args: Args,
    others: Args,
    entries: Seq<FileEntryView>,
    today: CalendarDate,
)
    requires
        args.ignore_pattern@ == others.ignore_pattern@,
    ensures
        run_outcome(args, entries, today) is Err <==> run_outcome(others, entries, today) is Err,
        run_outcome(args, entries, today) matches Err(e) ==> run_outcome(others, entries, today)
            == Err::<RunOutcomeView, SearchErrorView>(e),
        run_outcome(args, entries, today) matches Ok(outcome) ==> (outcome.exit_code != 0 <==> {
            &&& !args.no_error
            &&& search_outcome(
                entries,
                args.ignore_pattern@,
                today,
            )->Ok_0.statistics.overdue_todo_count > 0
        }),
{
}

} // verus!
