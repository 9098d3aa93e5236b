//! The items of a scan: the classification of a marker by its date, the scan
//! of one file and the scan of the files of a walk.
use crate::date::{
    date_format, lemma_before_is_earlier, lemma_local_date_grows_with_offset,
    lemma_local_date_is_day_of_local_seconds, lemma_previous_day, parsed_date,
    CalendarDate, UtcInstant, UtcOffset, MIN_YEAR,
};
use crate::marker::{
    find_markers, lemma_markers_of_lines, lines_of, marker_views, markers_in, FoundMarkerView,
};
use crate::walk::{
    eligible, entry_views, file_name, glob_compiles, ignore_file_name, is_eligible, is_glob,
    FileEntry, FileEntryView,
};
use vstd::prelude::*;

verus! {

/// What a marker's date says about it.
#[derive(Debug, Clone, Copy, PartialEq, Eq, Structural)]
pub enum TodoState {
    /// The date is today or later.
    Valid,
    /// The date is before today.
    Overdue,
    /// The date field is not a date.
    Malformed,
}

/// One marker found in a file.
#[derive(Debug)]
pub struct Todo {
    /// The path of the file, as it was handed in.
    pub file: String,
    /// The line of the marker, counted from 1.
    pub line_number: usize,
    /// The marker's date; `None` where the date field is not a date.
    pub date: Option<CalendarDate>,
    /// The text after the marker, without the white space around it; for a
    /// malformed marker, a note that quotes the date field.
    pub description: String,
    pub state: TodoState,
}

/// A [`Todo`] as a mathematical value.
pub struct TodoView {
    pub file: Seq<char>,
    pub line_number: nat,
    pub date: Option<CalendarDate>,
    pub description: Seq<char>,
    pub state: TodoState,
}

impl View for Todo {
    type V = TodoView;

    open spec fn view(&self) -> TodoView {
        TodoView {
            file: self.file@,
            line_number: self.line_number as nat,
            date: self.date,
            description: self.description@,
            state: self.state,
        }
    }
}

impl TodoView {
    /// The date is there unless the marker is malformed, and names a day that exists.
    pub open spec fn well_formed(self) -> bool {
        &&& self.date is Some <==> self.state != TodoState::Malformed
        &&& self.date matches Some(d) ==> d.is_valid()
    }
}

/// The state of a marker whose date field was read as `parsed`, on the day `today`.
pub open spec fn state_of(parsed: Option<CalendarDate>, today: CalendarDate) -> TodoState {
    match parsed {
        None => TodoState::Malformed,
        Some(date) => if date.before(today) {
            TodoState::Overdue
        } else {
            TodoState::Valid
        },
    }
}

/// What a malformed marker has for a description: the date field, and that it
/// is no date.
pub open spec fn malformed_note(date_text: Seq<char>) -> Seq<char> {
    date_text + " is not a valid date."@
}

/// The item made of the two fields of a marker and of what its date field
/// was read as.
pub open spec fn classified(
    file: Seq<char>,
    line_number: nat,
    date_text: Seq<char>,
    description: Seq<char>,
    parsed: Option<CalendarDate>,
    today: CalendarDate,
) -> TodoView {
    TodoView {
        file,
        line_number,
        date: parsed,
        description: match parsed {
            Some(_) => description,
            None => malformed_note(date_text),
        },
        state: state_of(parsed, today),
    }
}

/// The item of a marker found in `file`: its date field is read by chrono's
/// parser, and what follows its colon is trimmed.
pub open spec fn todo_of(file: Seq<char>, found: FoundMarkerView, today: CalendarDate) -> TodoView {
    classified(
        file,
        found.line_number,
        found.marker.date,
        found.marker.description(),
        parsed_date(found.marker.date, date_format()),
        today,
    )
}

/// The items of a file with the given text, in the order of its lines.
pub open spec fn todos_in(file: Seq<char>, text: Seq<char>, today: CalendarDate) -> Seq<
    TodoView,
> {
    markers_in(text).map_values(|found: FoundMarkerView| todo_of(file, found, today))
}

/// Whether a date is overdue on the day `today`.
pub fn date_state(date: &CalendarDate, today: &CalendarDate) -> (r: TodoState)
    ensures
        r == state_of(Some(*date), *today),
        r == TodoState::Overdue <==> date.before(*today),
        r == TodoState::Valid <==> !date.before(*today),
{
    if date.is_before(today) {
        TodoState::Overdue
    } else {
        TodoState::Valid
    }
}

/// Makes the item of a marker from its two fields and from what the date
/// field was read as.
pub fn classify(
    file: &str,
    line_number: usize,
    date_text: &str,
    description: &str,
    parsed: Option<CalendarDate>,
    today: &CalendarDate,
) -> (r: Todo)
    ensures
        r@ == classified(file@, line_number as nat, date_text@, description@, parsed, *today),
        parsed is None ==> r.state == TodoState::Malformed && r.description@ == date_text@
            + " is not a valid date."@,
        (parsed matches Some(d) ==> d.is_valid()) ==> r@.well_formed(),
{
    match parsed {
        Some(date) => Todo {
            file: file.to_owned(),
            line_number,
            date: Some(date),
            description: description.to_owned(),
            state: date_state(&date, today),
        },
        None => {
            let mut note = date_text.to_owned();
            note.append(" is not a valid date.");
            Todo {
                file: file.to_owned(),
                line_number,
                date: None,
                description: note,
                state: TodoState::Malformed,
            }
        },
    }
}

/// Reads the date field of a marker and makes the marker's item.
pub fn classify_marker(
    file: &str,
    line_number: usize,
    date_text: &str,
    description: &str,
    today: &CalendarDate,
) -> (r: Todo)
    ensures
        r@ == classified(
            file@,
            line_number as nat,
            date_text@,
            description@,
            parsed_date(date_text@, date_format()),
            *today,
        ),
        r@.well_formed(),
{
    let parsed = CalendarDate::parse(date_text);
    classify(file, line_number, date_text, description, parsed, today)
}

/// How many files were scanned and how many items of each state were found.
#[derive(Debug, Clone, Copy, PartialEq, Eq, Structural)]
pub struct TodoStatistics {
    pub files_searched: usize,
    pub valid_todo_count: usize,
    pub overdue_todo_count: usize,
    pub malformed_todo_count: usize,
}

/// [`TodoStatistics`] as a mathematical value.
pub struct StatisticsView {
    pub files_searched: nat,
    pub valid_todo_count: nat,
    pub overdue_todo_count: nat,
    pub malformed_todo_count: nat,
}

impl View for TodoStatistics {
    type V = StatisticsView;

    open spec fn view(&self) -> StatisticsView {
        StatisticsView {
            files_searched: self.files_searched as nat,
            valid_todo_count: self.valid_todo_count as nat,
            overdue_todo_count: self.overdue_todo_count as nat,
            malformed_todo_count: self.malformed_todo_count as nat,
        }
    }
}

/// The number of items of `todos` that are in `state`.
pub open spec fn count_state(todos: Seq<TodoView>, state: TodoState) -> nat
    decreases todos.len(),
{
    if todos.len() == 0 {
        0
    } else {
        count_state(todos.drop_last(), state) + if todos.last().state == state {
            1nat
        } else {
            0nat
        }
    }
}

/// The statistics of `todos` found in `files_searched` files.
pub open spec fn tally(todos: Seq<TodoView>, files_searched: nat) -> StatisticsView {
    StatisticsView {
        files_searched,
        valid_todo_count: count_state(todos, TodoState::Valid),
        overdue_todo_count: count_state(todos, TodoState::Overdue),
        malformed_todo_count: count_state(todos, TodoState::Malformed),
    }
}

/// The items of a scan and their statistics.
#[derive(Debug)]
pub struct SearchResult {
    /// The items, file by file in the order the files were handed in, and
    /// line by line within a file.
    pub todos: Vec<Todo>,
    pub statistics: TodoStatistics,
}

/// A [`SearchResult`] as a mathematical value.
pub struct SearchResultView {
    pub todos: Seq<TodoView>,
    pub statistics: StatisticsView,
}

/// The views of `todos`, one by one.
pub open spec fn todo_views(todos: Seq<Todo>) -> Seq<TodoView> {
    todos.map_values(|t: Todo| t@)
}

impl View for SearchResult {
    type V = SearchResultView;

    open spec fn view(&self) -> SearchResultView {
        SearchResultView { todos: todo_views(self.todos@), statistics: self.statistics@ }
    }
}

impl SearchResultView {
    /// Every item is well formed, and the three counts are the numbers of
    /// items in the three states.
    pub open spec fn well_formed(self) -> bool {
        &&& forall|i: int| 0 <= i < self.todos.len() ==> (#[trigger] self.todos[i]).well_formed()
        &&& self.counts_consistent()
    }

    /// The three counts are the numbers of items in the three states.
    pub open spec fn counts_consistent(self) -> bool {
        self.statistics == tally(self.todos, self.statistics.files_searched)
    }

    /// The result of a scan of no file.
    pub open spec fn empty() -> SearchResultView {
        SearchResultView { todos: Seq::empty(), statistics: tally(Seq::empty(), 0) }
    }

    /// The result of two scans taken together: the items of the first, then
    /// those of the second, and the sums of the counts.
    pub open spec fn merged(self, other: SearchResultView) -> SearchResultView {
        SearchResultView {
            todos: self.todos + other.todos,
            statistics: StatisticsView {
                files_searched: self.statistics.files_searched + other.statistics.files_searched,
                valid_todo_count: self.statistics.valid_todo_count
                    + other.statistics.valid_todo_count,
                overdue_todo_count: self.statistics.overdue_todo_count
                    + other.statistics.overdue_todo_count,
                malformed_todo_count: self.statistics.malformed_todo_count
                    + other.statistics.malformed_todo_count,
            },
        }
    }
}

/// The result of the scan of one file with the given text.
pub open spec fn file_scan(file: Seq<char>, text: Seq<char>, today: CalendarDate) -> SearchResultView {
    SearchResultView {
        todos: todos_in(file, text, today),
        statistics: tally(todos_in(file, text, today), 1),
    }
}

/// The count of a state in two sequences put together is the sum of the two counts.
pub proof fn lemma_count_state_add(a: Seq<TodoView>, b: Seq<TodoView>, state: TodoState)
    ensures
        count_state(a + b, state) == count_state(a, state) + count_state(b, state),
    decreases b.len(),
{
    if b.len() == 0 {
        assert(a + b =~= a);
    } else {
        assert((a + b).drop_last() =~= a + b.drop_last());
        lemma_count_state_add(a, b.drop_last(), state);
    }
}

/// Every item is in exactly one of the three states: the three counts add up
/// to the number of items.
pub proof fn lemma_counts_add_up(todos: Seq<TodoView>)
    ensures
        count_state(todos, TodoState::Valid) + count_state(todos, TodoState::Overdue)
            + count_state(todos, TodoState::Malformed) == todos.len(),
    decreases todos.len(),
{
    if todos.len() > 0 {
        lemma_counts_add_up(todos.drop_last());
    }
}

impl SearchResult {
    /// The result of a scan of no file.
    pub fn new() -> (r: SearchResult)
        ensures
            r@ == SearchResultView::empty(),
            r@.well_formed(),
    {
        let r = SearchResult {
            todos: Vec::new(),
            statistics: TodoStatistics {
                files_searched: 0,
                valid_todo_count: 0,
                overdue_todo_count: 0,
                malformed_todo_count: 0,
            },
        };
        assert(todo_views(r.todos@) =~= Seq::<TodoView>::empty());
        r
    }

    /// Takes the items and the counts of `other` into `self`.
    pub fn absorb(&mut self, other: SearchResult)
        requires
            old(self)@.well_formed(),
            other@.well_formed(),
            old(self).statistics.files_searched + other.statistics.files_searched <= usize::MAX,
        ensures
            final(self)@ == old(self)@.merged(other@),
            final(self)@.well_formed(),
    {
        let mut other = other;
        let ghost mine = self@.todos;
        let ghost theirs = other@.todos;
        self.todos.append(&mut other.todos);
        proof {
            assert(todo_views(self.todos@) =~= mine + theirs);
            lemma_count_state_add(mine, theirs, TodoState::Valid);
            lemma_count_state_add(mine, theirs, TodoState::Overdue);
            lemma_count_state_add(mine, theirs, TodoState::Malformed);
            lemma_counts_add_up(mine + theirs);
            assert((mine + theirs).len() == self.todos.len());
        }
        self.statistics.files_searched = self.statistics.files_searched
            + other.statistics.files_searched;
        self.statistics.valid_todo_count = self.statistics.valid_todo_count
            + other.statistics.valid_todo_count;
        self.statistics.overdue_todo_count = self.statistics.overdue_todo_count
            + other.statistics.overdue_todo_count;
        self.statistics.malformed_todo_count = self.statistics.malformed_todo_count
            + other.statistics.malformed_todo_count;
    }
}

/// Scans the text of one file: every line is searched for its first marker,
/// and each marker found becomes an item with the number of its line.
pub fn search_todos(file_path: &str, contents: &str, today: &CalendarDate) -> (r: SearchResult)
    ensures
        r@ == file_scan(file_path@, contents@, *today),
        r@.well_formed(),
        r.statistics.valid_todo_count + r.statistics.overdue_todo_count
            + r.statistics.malformed_todo_count == r.todos.len(),
{
    let markers = find_markers(contents);
    let mut todos: Vec<Todo> = Vec::new();
    let mut valid: usize = 0;
    let mut overdue: usize = 0;
    let mut malformed: usize = 0;
    let mut i: usize = 0;
    assert(todo_views(todos@) =~= Seq::<TodoView>::empty());
    while i < markers.len()
        invariant
            i <= markers.len(),
            marker_views(markers@) == markers_in(contents@),
            todos.len() == i,
            forall|j: int|
                0 <= j < i ==> (#[trigger] todo_views(todos@)[j]) == todo_of(
                    file_path@,
                    marker_views(markers@)[j],
                    *today,
                ),
            valid == count_state(todo_views(todos@), TodoState::Valid),
            overdue == count_state(todo_views(todos@), TodoState::Overdue),
            malformed == count_state(todo_views(todos@), TodoState::Malformed),
            forall|j: int| 0 <= j < i ==> (#[trigger] todo_views(todos@)[j]).well_formed(),
        decreases markers.len() - i,
    {
        let marker = &markers[i];
        let description = marker.description();
        let todo = classify_marker(
            file_path,
            marker.line_number,
            marker.date.as_str(),
            description.as_str(),
            today,
        );
        let state = todo.state;
        let ghost found = todo_views(todos@);
        let ghost item = todo@;
        todos.push(todo);
        proof {
            assert(marker_views(markers@)[i as int] == marker@);
            assert(todo_views(todos@) =~= found.push(item));
            assert(found.push(item).drop_last() =~= found);
            lemma_counts_add_up(found.push(item));
        }
        match state {
            TodoState::Valid => {
                valid = valid + 1;
            },
            TodoState::Overdue => {
                overdue = overdue + 1;
            },
            TodoState::Malformed => {
                malformed = malformed + 1;
            },
        }
        i = i + 1;
    }
    let r = SearchResult {
        todos,
        statistics: TodoStatistics {
            files_searched: 1,
            valid_todo_count: valid,
            overdue_todo_count: overdue,
            malformed_todo_count: malformed,
        },
    };
    proof {
        assert(todo_views(r.todos@) =~= todos_in(file_path@, contents@, *today));
        lemma_counts_add_up(r@.todos);
    }
    r
}

/// The entry at `i` is to be scanned, and its text is missing.
pub open spec fn unreadable_at(entries: Seq<FileEntryView>, pattern: Seq<char>, i: int) -> bool {
    &&& 0 <= i < entries.len()
    &&& eligible(pattern, entries[i].path, entries[i].is_file)
    &&& entries[i].contents is None
}

/// The first place at or after `from` of an entry that is to be scanned and
/// has no text.
pub open spec fn first_unreadable(
    entries: Seq<FileEntryView>,
    pattern: Seq<char>,
    from: int,
) -> Option<int>
    decreases entries.len() - from,
{
    if from < 0 || from >= entries.len() {
        None
    } else if unreadable_at(entries, pattern, from) {
        Some(from)
    } else {
        first_unreadable(entries, pattern, from + 1)
    }
}

/// The result of the scan of `entries`: the scans of those that are eligible
/// and have a text, merged in order.
pub open spec fn scanned(
    entries: Seq<FileEntryView>,
    pattern: Seq<char>,
    today: CalendarDate,
) -> SearchResultView
    decreases entries.len(),
{
    if entries.len() == 0 {
        SearchResultView::empty()
    } else {
        let before = scanned(entries.drop_last(), pattern, today);
        let entry = entries.last();
        match entry.contents {
            Some(text) if eligible(pattern, entry.path, entry.is_file) => before.merged(
                file_scan(entry.path, text, today),
            ),
            _ => before,
        }
    }
}

/// Why a scan gave no result.
#[derive(Debug)]
pub enum SearchError {
    /// The pattern for file names is not a glob.
    InvalidPattern,
    /// A file that was to be scanned has no text.
    UnreadableFile { path: String },
    /// The clock could not be read, so that there is no "today".
    Clock,
}

/// A [`SearchError`] as a mathematical value.
pub enum SearchErrorView {
    InvalidPattern,
    UnreadableFile { path: Seq<char> },
    Clock,
}

impl View for SearchError {
    type V = SearchErrorView;

    open spec fn view(&self) -> SearchErrorView {
        match *self {
            SearchError::InvalidPattern => SearchErrorView::InvalidPattern,
            SearchError::UnreadableFile { path } => SearchErrorView::UnreadableFile {
                path: path@,
            },
            SearchError::Clock => SearchErrorView::Clock,
        }
    }
}

/// What a scan of `entries` on the day `today` comes to.
///
/// A pattern that is no glob fails the scan whatever the entries are. The
/// first entry that is to be scanned and has no text fails it with that
/// entry's path. Otherwise the scan gives [`scanned`].
pub open spec fn search_outcome(
    entries: Seq<FileEntryView>,
    pattern: Seq<char>,
    today: CalendarDate,
) -> Result<SearchResultView, SearchErrorView> {
    if !glob_compiles(pattern) {
        Err(SearchErrorView::InvalidPattern)
    } else {
        match first_unreadable(entries, pattern, 0) {
            Some(i) => Err(SearchErrorView::UnreadableFile { path: entries[i].path }),
            None => Ok(scanned(entries, pattern, today)),
        }
    }
}

/// The view of what a scan returned.
pub open spec fn outcome_view(r: Result<SearchResult, SearchError>) -> Result<
    SearchResultView,
    SearchErrorView,
> {
    match r {
        Ok(found) => Ok(found@),
        Err(e) => Err(e@),
    }
}

/// The result of [`first_unreadable`] is the least place at or after `from`
/// of an entry that is to be scanned and has no text.
pub proof fn lemma_first_unreadable(entries: Seq<FileEntryView>, pattern: Seq<char>, from: int)
    requires
        0 <= from,
    ensures
        match first_unreadable(entries, pattern, from) {
            Some(i) => from <= i && unreadable_at(entries, pattern, i) && forall|j: int|
                from <= j < i ==> !unreadable_at(entries, pattern, j),
            None => forall|j: int| from <= j ==> !unreadable_at(entries, pattern, j),
        },
    decreases entries.len() - from,
{
    if from < entries.len() && !unreadable_at(entries, pattern, from) {
        lemma_first_unreadable(entries, pattern, from + 1);
    }
}

/// Scans the entries of a walk on the day `today`.
///
/// A pattern that is no glob fails the scan before any file is looked at. The
/// first entry that is to be scanned and has no text fails it too. Otherwise
/// the result holds the items of every eligible entry, in order.
pub fn search_at(entries: &Vec<FileEntry>, pattern: &str, today: &CalendarDate) -> (r: Result<
    SearchResult,
    SearchError,
>)
    ensures
        outcome_view(r) == search_outcome(entry_views(entries@), pattern@, *today),
        r matches Ok(found) ==> found@.well_formed() && found.statistics.valid_todo_count
            + found.statistics.overdue_todo_count + found.statistics.malformed_todo_count
            == found.todos.len(),
{
    if !is_glob(pattern) {
        return Err(SearchError::InvalidPattern);
    }
    let mut result = SearchResult::new();
    let ghost views = entry_views(entries@);
    let mut i: usize = 0;
    assert(views.take(0) =~= Seq::<FileEntryView>::empty());
    while i < entries.len()
        invariant
            i <= entries.len(),
            glob_compiles(pattern@),
            views == entry_views(entries@),
            result@ == scanned(views.take(i as int), pattern@, *today),
            result@.well_formed(),
            result.statistics.files_searched <= i,
            first_unreadable(views, pattern@, 0) == first_unreadable(views, pattern@, i as int),
        decreases entries.len() - i,
    {
        let entry = &entries[i];
        proof {
            assert(views.take(i + 1).drop_last() =~= views.take(i as int));
            assert(views.take(i + 1).last() == entry@);
            assert(views[i as int] == entry@);
        }
        if is_eligible(pattern, entry.path.as_str(), entry.is_file) {
            match &entry.contents {
                Some(text) => {
                    let file_result = search_todos(entry.path.as_str(), text.as_str(), today);
                    result.absorb(file_result);
                },
                None => {
                    let path = entry.path.clone();
                    assert(unreadable_at(views, pattern@, i as int));
                    return Err(SearchError::UnreadableFile { path });
                },
            }
        }
        i = i + 1;
    }
    proof {
        assert(views.take(i as int) =~= views);
        lemma_counts_add_up(result@.todos);
    }
    Ok(result)
}

/// Scans the entries of a walk on today's date, as a clock set to `offset`
/// shows it at the moment of the call. The result is that of [`search_at`]
/// for that date, or the error that the clock could not be read.
pub fn search(entries: &Vec<FileEntry>, pattern: &str, offset: &UtcOffset) -> (r: Result<
    SearchResult,
    SearchError,
>)
    requires
        offset.is_valid(),
    ensures
        r matches Err(SearchError::Clock) || exists|now: UtcInstant|
            now.is_valid() && outcome_view(r) == #[trigger] search_outcome(
                entry_views(entries@),
                pattern@,
                now.local_date(*offset),
            ),
        r matches Ok(found) ==> found@.well_formed() && found.statistics.valid_todo_count
            + found.statistics.overdue_todo_count + found.statistics.malformed_todo_count
            == found.todos.len(),
{
    match UtcInstant::now() {
        Some(now) => {
            let day = now.date_at(offset);
            let r = search_at(entries, pattern, &day);
            assert(outcome_view(r) == search_outcome(
                entry_views(entries@),
                pattern@,
                now.local_date(*offset),
            ));
            r
        },
        None => Err(SearchError::Clock),
    }
}

/// A date field that chrono does not read as a date makes a malformed item,
/// whose description begins with the date field as it was written and goes
/// on to say that it is no date. What the user wrote after the marker is not
/// kept.
pub proof fn lemma_unparsed_is_malformed(
    file: Seq<char>,
    found: FoundMarkerView,
    today: CalendarDate,
)
    requires
        parsed_date(found.marker.date, date_format()) is None,
    ensures
        ({
            let item = todo_of(file, found, today);
            &&& item.state == TodoState::Malformed
            &&& item.date is None
            &&& item.description == found.marker.date + " is not a valid date."@
            &&& item.description.take(found.marker.date.len() as int) == found.marker.date
        }),
{
    let note = found.marker.date + " is not a valid date."@;
    assert(note.take(found.marker.date.len() as int) =~= found.marker.date);
}

/// A date is overdue exactly where it is earlier than today, and valid where
/// it is today or later, counted in days. So today's date is valid, and
/// yesterday's is overdue.
pub proof fn lemma_state_follows_day_numbers(date: CalendarDate, today: CalendarDate)
    requires
        date.is_valid(),
        today.is_valid(),
    ensures
        state_of(Some(date), today) == TodoState::Overdue <==> date.day_number()
            < today.day_number(),
        state_of(Some(date), today) == TodoState::Valid <==> date.day_number()
            >= today.day_number(),
        state_of(Some(today), today) == TodoState::Valid,
        today.year > MIN_YEAR ==> state_of(Some(today.previous()), today) == TodoState::Overdue,
{
    lemma_before_is_earlier(date, today);
    if today.year > MIN_YEAR {
        lemma_previous_day(today);
    }
}

/// At one moment, a date that is overdue by a clock is overdue by every clock
/// further east, and a date that is valid by a clock is valid by every clock
/// further west. Between two offsets the state of a date changes at most from
/// valid to overdue, going east.
pub proof fn lemma_state_across_offsets(
    date: CalendarDate,
    instant: UtcInstant,
    west: UtcOffset,
    east: UtcOffset,
)
    requires
        date.is_valid(),
        instant.is_valid(),
        west.is_valid(),
        east.is_valid(),
        west.local_minus_utc <= east.local_minus_utc,
    ensures
        state_of(Some(date), instant.local_date(west)) == TodoState::Overdue ==> state_of(
            Some(date),
            instant.local_date(east),
        ) == TodoState::Overdue,
        state_of(Some(date), instant.local_date(east)) == TodoState::Valid ==> state_of(
            Some(date),
            instant.local_date(west),
        ) == TodoState::Valid,
{
    lemma_local_date_grows_with_offset(instant, west, east);
    lemma_local_date_is_day_of_local_seconds(instant, west);
    lemma_local_date_is_day_of_local_seconds(instant, east);
    lemma_before_is_earlier(date, instant.local_date(west));
    lemma_before_is_earlier(date, instant.local_date(east));
    lemma_before_is_earlier(instant.local_date(east), instant.local_date(west));
}

/// Every item of a file carries the file's path and the number of one of
/// its lines; the items stand in the order of their lines, at most one to a
/// line.
pub proof fn lemma_todos_in(file: Seq<char>, text: Seq<char>, today: CalendarDate)
    ensures
        ({
            let todos = todos_in(file, text, today);
            &&& todos.len() <= lines_of(text).len()
            &&& forall|i: int|
                0 <= i < todos.len() ==> {
                    &&& (#[trigger] todos[i]).file == file
                    &&& 1 <= todos[i].line_number <= lines_of(text).len()
                }
            &&& forall|i: int, j: int|
                0 <= i < j < todos.len() ==> (#[trigger] todos[i]).line_number < (
                #[trigger] todos[j]).line_number
        }),
{
    lemma_markers_of_lines(lines_of(text), 1);
}

/// The number of entries that are scanned: those that are eligible and have a text.
pub open spec fn scanned_count(entries: Seq<FileEntryView>, pattern: Seq<char>) -> nat
    decreases entries.len(),
{
    if entries.len() == 0 {
        0
    } else {
        let entry = entries.last();
        scanned_count(entries.drop_last(), pattern) + if entry.contents is Some && eligible(
            pattern,
            entry.path,
            entry.is_file,
        ) {
            1nat
        } else {
            0nat
        }
    }
}

/// The statistics of a scan count what the scan found: the three counts are
/// the numbers of items in the three states and add up to the number of
/// items, and the files searched are the entries that were scanned, not all
/// that the walk visited.
pub proof fn lemma_scanned_counts(
    entries: Seq<FileEntryView>,
    pattern: Seq<char>,
    today: CalendarDate,
)
    ensures
        ({
            let found = scanned(entries, pattern, today);
            &&& found.counts_consistent()
            &&& found.statistics.valid_todo_count + found.statistics.overdue_todo_count
                + found.statistics.malformed_todo_count == found.todos.len()
            &&& found.statistics.files_searched == scanned_count(entries, pattern)
            &&& found.statistics.files_searched <= entries.len()
        }),
    decreases entries.len(),
{
    let found = scanned(entries, pattern, today);
    if entries.len() > 0 {
        let before = scanned(entries.drop_last(), pattern, today);
        lemma_scanned_counts(entries.drop_last(), pattern, today);
        let entry = entries.last();
        if entry.contents is Some && eligible(pattern, entry.path, entry.is_file) {
            let here = file_scan(entry.path, entry.contents->0, today);
            lemma_merged_counts(before, here);
        }
    }
    lemma_counts_add_up(found.todos);
}

/// Two results whose counts are those of their items merge into a result
/// whose counts are those of its items.
pub proof fn lemma_merged_counts(a: SearchResultView, b: SearchResultView)
    requires
        a.counts_consistent(),
        b.counts_consistent(),
    ensures
        a.merged(b).counts_consistent(),
{
    lemma_count_state_add(a.todos, b.todos, TodoState::Valid);
    lemma_count_state_add(a.todos, b.todos, TodoState::Overdue);
    lemma_count_state_add(a.todos, b.todos, TodoState::Malformed);
}

/// Merging is associative, and the empty result is neutral: the results of
/// the files can be put together in any grouping.
pub proof fn lemma_merged_associative(a: SearchResultView, b: SearchResultView, c: SearchResultView)
    ensures
        a.merged(b).merged(c) == a.merged(b.merged(c)),
        a.merged(SearchResultView::empty()) == a,
        SearchResultView::empty().merged(a) == a,
{
    assert((a.todos + b.todos) + c.todos =~= a.todos + (b.todos + c.todos));
    assert(a.todos + Seq::<TodoView>::empty() =~= a.todos);
    assert(Seq::<TodoView>::empty() + a.todos =~= a.todos);
}

/// The scan of one list of entries after another is the merge of the two
/// scans.
pub proof fn lemma_scanned_in_parts(
    first: Seq<FileEntryView>,
    second: Seq<FileEntryView>,
    pattern: Seq<char>,
    today: CalendarDate,
)
    ensures
        scanned(first + second, pattern, today) == scanned(first, pattern, today).merged(
            scanned(second, pattern, today),
        ),
    decreases second.len(),
{
    let a = scanned(first, pattern, today);
    if second.len() == 0 {
        assert(first + second =~= first);
        lemma_merged_associative(a, a, a);
    } else {
        let front = second.drop_last();
        assert((first + second).drop_last() =~= first + front);
        lemma_scanned_in_parts(first, front, pattern, today);
        let entry = second.last();
        if entry.contents is Some && eligible(pattern, entry.path, entry.is_file) {
            lemma_merged_associative(
                a,
                scanned(front, pattern, today),
                file_scan(entry.path, entry.contents->0, today),
            );
        }
    }
}

/// Every item of a scan comes from an entry that was eligible: it carries
/// that entry's path.
pub proof fn lemma_scanned_files(
    entries: Seq<FileEntryView>,
    pattern: Seq<char>,
    today: CalendarDate,
)
    ensures
        forall|i: int|
            0 <= i < scanned(entries, pattern, today).todos.len() ==> exists|j: int|
                0 <= j < entries.len() && eligible(
                    pattern,
                    entries[j].path,
                    entries[j].is_file,
                ) && (#[trigger] scanned(entries, pattern, today).todos[i]).file
                    == entries[j].path,
    decreases entries.len(),
{
    let found = scanned(entries, pattern, today);
    if entries.len() > 0 {
        let front = entries.drop_last();
        let before = scanned(front, pattern, today);
        lemma_scanned_files(front, pattern, today);
        let entry = entries.last();
        let scans = entry.contents is Some && eligible(pattern, entry.path, entry.is_file);
        if scans {
            lemma_todos_in(entry.path, entry.contents->0, today);
        }
        assert forall|i: int| 0 <= i < found.todos.len() implies exists|j: int|
            0 <= j < entries.len() && eligible(pattern, entries[j].path, entries[j].is_file) && (
            #[trigger] found.todos[i]).file == entries[j].path by {
            if i < before.todos.len() {
                assert(found.todos[i] == before.todos[i]);
                let j = choose|j: int|
                    0 <= j < front.len() && eligible(pattern, front[j].path, front[j].is_file)
                        && before.todos[i].file == front[j].path;
                assert(entries[j] == front[j]);
            } else {
                let here = todos_in(entry.path, entry.contents->0, today);
                assert(found.todos[i] == here[i - before.todos.len()]);
                assert(entries[entries.len() - 1] == entry);
            }
        }
    }
}

/// The ignore file is never scanned: no item of a scan comes from a file
/// whose name is that of the ignore file, whatever the walk handed over.
pub proof fn lemma_ignore_file_is_never_scanned(
    entries: Seq<FileEntryView>,
    pattern: Seq<char>,
    today: CalendarDate,
)
    ensures
        forall|i: int|
            0 <= i < scanned(entries, pattern, today).todos.len() ==> file_name(
                (#[trigger] scanned(entries, pattern, today).todos[i]).file,
            ) != ignore_file_name(),
{
    lemma_scanned_files(entries, pattern, today);
}

} // verus!
