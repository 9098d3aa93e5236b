//! A plain listing of the markers of a tree: every marker of every regular
//! file with its date, read as ISO 8601, and its description, with no
//! judgement of what is overdue.
use crate::date::CalendarDate;
use crate::marker::{find_markers, marker_views, markers_in, FoundMarker, FoundMarkerView};
use crate::walk::{entry_views, FileEntry, FileEntryView};
use vstd::prelude::*;

verus! {

/// One marker of a listing: an item with its date, or a note that the date
/// field could not be read.
#[derive(Debug, PartialEq, Eq)]
pub enum TodoSearchResult {
    Todo { file: String, line_number: usize, date: CalendarDate, description: String },
    ParseError { file: String, line_number: usize, error: String },
}

/// A [`TodoSearchResult`] as a mathematical value.
pub enum TodoSearchResultView {
    Todo { file: Seq<char>, line_number: nat, date: CalendarDate, description: Seq<char> },
    ParseError { file: Seq<char>, line_number: nat, error: Seq<char> },
}

impl View for TodoSearchResult {
    type V = TodoSearchResultView;

    open spec fn view(&self) -> TodoSearchResultView {
        match *self {
            TodoSearchResult::Todo {
                file,
                line_number,
                date,
                description,
            } => TodoSearchResultView::Todo {
                file: file@,
                line_number: line_number as nat,
                date,
                description: description@,
            },
            TodoSearchResult::ParseError {
                file,
                line_number,
                error,
            } => TodoSearchResultView::ParseError {
                file: file@,
                line_number: line_number as nat,
                error: error@,
            },
        }
    }
}

/// The views of `results`, one by one.
pub open spec fn result_views(results: Seq<TodoSearchResult>) -> Seq<TodoSearchResultView> {
    results.map_values(|r: TodoSearchResult| r@)
}

/// What the `time` crate's `Date::parse` makes of `text` as an ISO 8601 date:
/// the date it returns, or `None` where it returns an error.
pub uninterp spec fn iso_date(text: Seq<char>) -> Option<CalendarDate>;

/// Calls `Date::parse` of the `time` crate with its `Iso8601::DEFAULT`
/// description and copies the year, month and day of the date it returns.
/// The parser's result is a function of the text; it is named by
/// [`iso_date`], not spelled out. A date that `time` returns is a day that
/// exists, in a year between -9999 and 9999.
#[verifier::external_body]
fn parse_iso_date(text: &str) -> (r: Option<CalendarDate>)
    ensures
        r == iso_date(text@),
        r matches Some(d) ==> d.is_valid(),
{
    match time::Date::parse(text, &time::format_description::well_known::Iso8601::DEFAULT) {
        Ok(d) => Some(
            CalendarDate { year: d.year(), month: u8::from(d.month()).into(), day: d.day().into() },
        ),
        Err(_) => None,
    }
}

/// The entry of a listing for a marker found in `file`, whose date field was
/// read as `parsed`: the marker with its date and its description, which is
/// what follows its colon without the white space around it, or the note
/// that the date field is no date.
pub open spec fn listed(
    file: Seq<char>,
    found: FoundMarkerView,
    parsed: Option<CalendarDate>,
) -> TodoSearchResultView {
    match parsed {
        Some(date) => TodoSearchResultView::Todo {
            file,
            line_number: found.line_number,
            date,
            description: found.marker.description(),
        },
        None => TodoSearchResultView::ParseError {
            file,
            line_number: found.line_number,
            error: found.marker.date + " is not a valid date."@,
        },
    }
}

/// The listing of a file with the given text, in the order of its lines.
pub open spec fn listing_of_file(file: Seq<char>, text: Seq<char>) -> Seq<TodoSearchResultView> {
    markers_in(text).map_values(
        |found: FoundMarkerView| listed(file, found, iso_date(found.marker.date)),
    )
}

/// The listing of the regular files among `entries`, file after file.
pub open spec fn listing_of(entries: Seq<FileEntryView>) -> Seq<TodoSearchResultView>
    decreases entries.len(),
{
    if entries.len() == 0 {
        Seq::empty()
    } else {
        let before = listing_of(entries.drop_last());
        let entry = entries.last();
        match entry.contents {
            Some(text) if entry.is_file => before + listing_of_file(entry.path, text),
            _ => before,
        }
    }
}

/// Makes the entry of a listing from a marker's fields and from what the
/// date field was read as.
pub fn list_marker(found: &FoundMarker, file: &str, parsed: Option<CalendarDate>) -> (r:
    TodoSearchResult)
    ensures
        r@ == listed(file@, found@, parsed),
{
    let line_number = found.line_number;
    match parsed {
        Some(date) => TodoSearchResult::Todo {
            file: file.to_owned(),
            line_number,
            date,
            description: found.description(),
        },
        None => {
            let mut error = found.date.clone();
            error.append(" is not a valid date.");
            TodoSearchResult::ParseError { file: file.to_owned(), line_number, error }
        },
    }
}

/// Lists the markers of one file.
pub fn search_file_for_todos(file_path: &str, contents: &str) -> (r: Vec<TodoSearchResult>)
    ensures
        result_views(r@) == listing_of_file(file_path@, contents@),
{
    let markers = find_markers(contents);
    let mut results: Vec<TodoSearchResult> = Vec::new();
    let mut i: usize = 0;
    while i < markers.len()
        invariant
            i <= markers.len(),
            marker_views(markers@) == markers_in(contents@),
            results.len() == i,
            forall|j: int|
                0 <= j < i ==> (#[trigger] result_views(results@)[j]) == listed(
                    file_path@,
                    marker_views(markers@)[j],
                    iso_date(marker_views(markers@)[j].marker.date),
                ),
        decreases markers.len() - i,
    {
        let marker = &markers[i];
        let parsed = parse_iso_date(marker.date.as_str());
        let entry = list_marker(marker, file_path, parsed);
        let ghost before = result_views(results@);
        let ghost view = entry@;
        results.push(entry);
        proof {
            assert(marker_views(markers@)[i as int] == marker@);
            assert(result_views(results@) =~= before.push(view));
        }
        i = i + 1;
    }
    assert(result_views(results@) =~= listing_of_file(file_path@, contents@));
    results
}

/// Lists the markers of all regular files among `entries`. Every regular file
/// must come with its text.
pub fn search_all_files_for_todos(entries: &Vec<FileEntry>) -> (r: Vec<TodoSearchResult>)
    requires
        forall|i: int|
            0 <= i < entries.len() && entries[i].is_file ==> (#[trigger] entries[i]).contents
                is Some,
    ensures
        result_views(r@) == listing_of(entry_views(entries@)),
{
    let mut matches: Vec<TodoSearchResult> = Vec::new();
    let ghost views = entry_views(entries@);
    let mut i: usize = 0;
    assert(views.take(0) =~= Seq::<FileEntryView>::empty());
    assert(result_views(matches@) =~= Seq::<TodoSearchResultView>::empty());
    while i < entries.len()
        invariant
            i <= entries.len(),
            views == entry_views(entries@),
            forall|k: int|
                0 <= k < entries.len() && entries[k].is_file ==> (#[trigger] entries[k]).contents
                    is Some,
            result_views(matches@) == listing_of(views.take(i as int)),
        decreases entries.len() - i,
    {
        let entry = &entries[i];
        proof {
            assert(views.take(i + 1).drop_last() =~= views.take(i as int));
            assert(views.take(i + 1).last() == entry@);
        }
        if entry.is_file {
            let text = entry.contents.as_ref().unwrap();
            let mut found = search_file_for_todos(entry.path.as_str(), text.as_str());
            let ghost before = result_views(matches@);
            let ghost here = result_views(found@);
            matches.append(&mut found);
            assert(result_views(matches@) =~= before + here);
        }
        i = i + 1;
    }
    assert(views.take(i as int) =~= views);
    matches
}

} // verus!
