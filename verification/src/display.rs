//! The report of a scan: which lines it has in each display mode, and what
//! each line says. Colours are left to whoever writes the lines out.
use crate::cli::DisplayMode;
use crate::date::{CalendarDate, ClockError, UtcInstant, UtcOffset};
use crate::scan::{SearchResult, SearchResultView, StatisticsView, Todo, TodoState, TodoView};
use crate::text::{
    decimal, push_decimal, push_signed_decimal, push_zero_padded, signed_decimal, zero_padded,
};
use vstd::prelude::*;

verus! {

/// One line of a report.
#[derive(Debug)]
pub enum ReportLine {
    /// Where an item was found, and its state.
    Header { state: TodoState, file: String, line_number: usize },
    /// The date of an item, and the number of days from today to that date.
    Due { date: CalendarDate, days_left: i64 },
    /// The description of an item.
    Description { malformed: bool, text: String },
    /// The empty line after an item.
    Blank,
    /// The number of files that were scanned.
    Searched { files: usize },
    /// The number of items with a date, and how many of them are overdue.
    Found { todos: usize, overdue: usize },
}

/// A [`ReportLine`] as a mathematical value.
pub enum ReportLineView {
    Header { state: TodoState, file: Seq<char>, line_number: nat },
    Due { date: CalendarDate, days_left: int },
    Description { malformed: bool, text: Seq<char> },
    Blank,
    Searched { files: nat },
    Found { todos: nat, overdue: nat },
}

impl View for ReportLine {
    type V = ReportLineView;

    open spec fn view(&self) -> ReportLineView {
        match *self {
            ReportLine::Header { state, file, line_number } => ReportLineView::Header {
                state,
                file: file@,
                line_number: line_number as nat,
            },
            ReportLine::Due { date, days_left } => ReportLineView::Due {
                date,
                days_left: days_left as int,
            },
            ReportLine::Description { malformed, text } => ReportLineView::Description {
                malformed,
                text: text@,
            },
            ReportLine::Blank => ReportLineView::Blank,
            ReportLine::Searched { files } => ReportLineView::Searched { files: files as nat },
            ReportLine::Found { todos, overdue } => ReportLineView::Found {
                todos: todos as nat,
                overdue: overdue as nat,
            },
        }
    }
}

/// The views of `lines`, one by one.
pub open spec fn line_views(lines: Seq<ReportLine>) -> Seq<ReportLineView> {
    lines.map_values(|l: ReportLine| l@)
}

/// A year as it is written in a date: four digits, with zeros in front where
/// needed; a year before 0 or after 9999 has its sign in front.
pub open spec fn year_text(year: int) -> Seq<char> {
    if 0 <= year <= 9999 {
        zero_padded(year as nat, 4)
    } else if year < 0 {
        "-"@ + zero_padded((-year) as nat, 4)
    } else {
        "+"@ + zero_padded(year as nat, 4)
    }
}

/// A date as it is written: the year, the month and the day, with `-` between them.
pub open spec fn date_text(date: CalendarDate) -> Seq<char> {
    year_text(date.year as int) + "-"@ + zero_padded(date.month as nat, 2) + "-"@ + zero_padded(
        date.day as nat,
        2,
    )
}

/// What a line of the report says.
pub open spec fn line_text(line: ReportLineView) -> Seq<char> {
    match line {
        ReportLineView::Header { state, file, line_number } => {
            let place = "TODO@  "@ + file + ":"@ + decimal(line_number);
            match state {
                TodoState::Valid => place,
                TodoState::Overdue => place + " [overdue]"@,
                TodoState::Malformed => place + " is malformed!"@,
            }
        },
        ReportLineView::Due { date, days_left } => "  Due:         "@ + date_text(date) + " ("@
            + signed_decimal(days_left) + " days)"@,
        ReportLineView::Description { malformed, text } => "  Description: "@ + text,
        ReportLineView::Blank => Seq::empty(),
        ReportLineView::Searched { files } => "Searched "@ + decimal(files) + " file(s):"@,
        ReportLineView::Found { todos, overdue } => {
            let found = decimal(todos) + " todo(s) found"@;
            if overdue > 0 {
                found + " of which "@ + decimal(overdue) + " is/are overdue"@
            } else {
                found
            }
        },
    }
}

/// How a part of a line is set off on a terminal.
#[derive(Debug, Clone, Copy, PartialEq, Eq, Structural)]
pub enum Style {
    Plain,
    Bold,
    Underline,
    BoldRed,
    BoldRedUnderline,
    BoldYellow,
    BoldYellowUnderline,
    MagentaDimmed,
    BlueDimmed,
    YellowDimmed,
    GreenIntense,
}

/// A part of a line that is shown in one style.
#[derive(Debug)]
pub struct Span {
    pub style: Style,
    pub text: String,
}

/// A [`Span`] as a mathematical value.
pub struct SpanView {
    pub style: Style,
    pub text: Seq<char>,
}

impl View for Span {
    type V = SpanView;

    open spec fn view(&self) -> SpanView {
        SpanView { style: self.style, text: self.text@ }
    }
}

/// The views of `spans`, one by one.
pub open spec fn span_views(spans: Seq<Span>) -> Seq<SpanView> {
    spans.map_values(|s: Span| s@)
}

/// The place of an item as a header shows it: a blank, the file, a colon and
/// the line.
pub open spec fn place_text(file: Seq<char>, line_number: nat) -> Seq<char> {
    " "@ + file + ":"@ + decimal(line_number)
}

/// The parts of a line of the report, each with its style.
pub open spec fn line_spans(line: ReportLineView) -> Seq<SpanView> {
    match line {
        ReportLineView::Header { state, file, line_number } => match state {
            TodoState::Valid => seq![
                SpanView { style: Style::Bold, text: "TODO@"@ },
                SpanView { style: Style::Plain, text: " "@ },
                SpanView { style: Style::Underline, text: place_text(file, line_number) },
            ],
            TodoState::Overdue => seq![
                SpanView { style: Style::BoldRed, text: "TODO@ "@ },
                SpanView { style: Style::BoldRedUnderline, text: place_text(file, line_number) },
                SpanView { style: Style::BoldRed, text: " [overdue]"@ },
            ],
            TodoState::Malformed => seq![
                SpanView { style: Style::BoldYellow, text: "TODO@ "@ },
                SpanView {
                    style: Style::BoldYellowUnderline,
                    text: place_text(file, line_number),
                },
                SpanView { style: Style::BoldYellow, text: " is malformed!"@ },
            ],
        },
        ReportLineView::Due { date, days_left } => seq![
            SpanView { style: Style::Plain, text: "  "@ },
            SpanView { style: Style::MagentaDimmed, text: "Due:        "@ },
            SpanView {
                style: Style::Plain,
                text: " "@ + date_text(date) + " ("@ + signed_decimal(days_left) + " days)"@,
            },
        ],
        ReportLineView::Description { malformed, text } => seq![
            SpanView { style: Style::Plain, text: "  "@ },
            SpanView {
                style: if malformed {
                    Style::YellowDimmed
                } else {
                    Style::BlueDimmed
                },
                text: "Description:"@,
            },
            SpanView { style: Style::Plain, text: " "@ + text },
        ],
        ReportLineView::Blank => Seq::empty(),
        ReportLineView::Searched { files } => seq![
            SpanView {
                style: Style::GreenIntense,
                text: "Searched "@ + decimal(files) + " file(s):"@,
            },
        ],
        ReportLineView::Found { todos, overdue } => {
            let found = SpanView { style: Style::Bold, text: decimal(todos) + " todo(s) found"@ };
            if overdue > 0 {
                seq![
                    found,
                    SpanView {
                        style: Style::BoldRed,
                        text: " of which "@ + decimal(overdue) + " is/are overdue"@,
                    },
                ]
            } else {
                seq![found]
            }
        },
    }
}

/// The texts of `spans`, one after the other.
pub open spec fn spans_text(spans: Seq<SpanView>) -> Seq<char>
    decreases spans.len(),
{
    if spans.len() == 0 {
        Seq::empty()
    } else {
        spans_text(spans.drop_last()) + spans.last().text
    }
}

/// The parts of a line, read one after the other, say what the line says:
/// the styles change how a line looks, not its words.
pub proof fn lemma_spans_say_the_line(line: ReportLineView)
    ensures
        spans_text(line_spans(line)) == line_text(line),
{
    reveal_with_fuel(spans_text, 4);
    reveal_strlit("TODO@  ");
    reveal_strlit("TODO@ ");
    reveal_strlit("TODO@");
    reveal_strlit(" ");
    reveal_strlit("  ");
    reveal_strlit("  Due:         ");
    reveal_strlit("Due:        ");
    reveal_strlit("  Description: ");
    reveal_strlit("Description:");
    let spans = line_spans(line);
    if spans.len() == 3 {
        assert(spans.drop_last().drop_last().drop_last() =~= Seq::<SpanView>::empty());
        assert(spans_text(spans) =~= spans[0].text + spans[1].text + spans[2].text);
    } else if spans.len() == 2 {
        assert(spans.drop_last().drop_last() =~= Seq::<SpanView>::empty());
        assert(spans_text(spans) =~= spans[0].text + spans[1].text);
    } else if spans.len() == 1 {
        assert(spans.drop_last() =~= Seq::<SpanView>::empty());
        assert(spans_text(spans) =~= spans[0].text);
    }
    assert(spans_text(spans) =~= line_text(line));
}

/// The lines that tell of one item, on the day `today`.
pub open spec fn item_lines(todo: TodoView, today: CalendarDate) -> Seq<ReportLineView> {
    let header = ReportLineView::Header {
        state: todo.state,
        file: todo.file,
        line_number: todo.line_number,
    };
    let description = ReportLineView::Description {
        malformed: todo.state == TodoState::Malformed,
        text: todo.description,
    };
    match todo.date {
        Some(date) => seq![
            header,
            ReportLineView::Due { date, days_left: date.day_number() - today.day_number() },
            description,
            ReportLineView::Blank,
        ],
        None => seq![header, description, ReportLineView::Blank],
    }
}

/// Whether the details of an item in `state` are part of the report in `mode`.
pub open spec fn shows(mode: DisplayMode, state: TodoState) -> bool {
    match mode {
        DisplayMode::Concise => false,
        DisplayMode::OverdueOnly => state != TodoState::Valid,
        DisplayMode::Default => true,
    }
}

/// The lines that tell of the items of `todos` that `mode` shows, in order.
pub open spec fn detail_lines(
    mode: DisplayMode,
    todos: Seq<TodoView>,
    today: CalendarDate,
) -> Seq<ReportLineView>
    decreases todos.len(),
{
    if todos.len() == 0 {
        Seq::empty()
    } else {
        let before = detail_lines(mode, todos.drop_last(), today);
        if shows(mode, todos.last().state) {
            before + item_lines(todos.last(), today)
        } else {
            before
        }
    }
}

/// The two lines of totals.
pub open spec fn summary_lines(statistics: StatisticsView) -> Seq<ReportLineView> {
    seq![
        ReportLineView::Searched { files: statistics.files_searched },
        ReportLineView::Found {
            todos: statistics.valid_todo_count + statistics.overdue_todo_count,
            overdue: statistics.overdue_todo_count,
        },
    ]
}

/// The report of `result` in `mode`, on the day `today`: the details of the
/// items that the mode shows, then the totals.
pub open spec fn report(mode: DisplayMode, result: SearchResultView, today: CalendarDate) -> Seq<
    ReportLineView,
> {
    detail_lines(mode, result.todos, today) + summary_lines(result.statistics)
}

/// Whether the details of an item in `state` are part of the report in `mode`.
pub fn is_shown(mode: DisplayMode, state: TodoState) -> (r: bool)
    ensures
        r == shows(mode, state),
{
    match mode {
        DisplayMode::Concise => false,
        DisplayMode::OverdueOnly => match state {
            TodoState::Valid => false,
            _ => true,
        },
        DisplayMode::Default => true,
    }
}

/// Appends `date` to `out`, as it is written.
pub fn push_date(out: &mut String, date: &CalendarDate)
    ensures
        final(out)@ == old(out)@ + date_text(*date),
{
    let ghost before = out@;
    let year: i64 = date.year as i64;
    if 0 <= year && year <= 9999 {
        push_zero_padded(out, year as u64, 4);
    } else if year < 0 {
        out.append("-");
        push_zero_padded(out, (-year) as u64, 4);
    } else {
        out.append("+");
        push_zero_padded(out, year as u64, 4);
    }
    assert(out@ =~= before + year_text(date.year as int));
    out.append("-");
    push_zero_padded(out, date.month as u64, 2);
    out.append("-");
    push_zero_padded(out, date.day as u64, 2);
    assert(out@ =~= before + date_text(*date));
}

/// A span of `text` in `style`.
fn span(style: Style, text: String) -> (r: Span)
    ensures
        r@ == (SpanView { style, text: text@ }),
{
    Span { style, text }
}

/// The place of an item as a header shows it.
fn place(file: &str, line_number: usize) -> (r: String)
    ensures
        r@ == place_text(file@, line_number as nat),
{
    let mut out = String::new();
    out.append(" ");
    out.append(file);
    out.append(":");
    push_decimal(&mut out, line_number as u64);
    assert(out@ =~= place_text(file@, line_number as nat));
    out
}

impl ReportLine {
    /// The parts of the line, each with the style in which it is shown.
    pub fn spans(&self) -> (r: Vec<Span>)
        ensures
            span_views(r@) == line_spans(self@),
    {
        let mut out: Vec<Span> = Vec::new();
        match self {
            ReportLine::Header { state, file, line_number } => {
                let at = place(file.as_str(), *line_number);
                match state {
                    TodoState::Valid => {
                        out.push(span(Style::Bold, "TODO@".to_owned()));
                        out.push(span(Style::Plain, " ".to_owned()));
                        out.push(span(Style::Underline, at));
                    },
                    TodoState::Overdue => {
                        out.push(span(Style::BoldRed, "TODO@ ".to_owned()));
                        out.push(span(Style::BoldRedUnderline, at));
                        out.push(span(Style::BoldRed, " [overdue]".to_owned()));
                    },
                    TodoState::Malformed => {
                        out.push(span(Style::BoldYellow, "TODO@ ".to_owned()));
                        out.push(span(Style::BoldYellowUnderline, at));
                        out.push(span(Style::BoldYellow, " is malformed!".to_owned()));
                    },
                }
            },
            ReportLine::Due { date, days_left } => {
                let mut due = " ".to_owned();
                push_date(&mut due, date);
                due.append(" (");
                push_signed_decimal(&mut due, *days_left);
                due.append(" days)");
                out.push(span(Style::Plain, "  ".to_owned()));
                out.push(span(Style::MagentaDimmed, "Due:        ".to_owned()));
                out.push(span(Style::Plain, due));
            },
            ReportLine::Description { malformed, text } => {
                let mut said = " ".to_owned();
                said.append(text.as_str());
                let style = if *malformed {
                    Style::YellowDimmed
                } else {
                    Style::BlueDimmed
                };
                out.push(span(Style::Plain, "  ".to_owned()));
                out.push(span(style, "Description:".to_owned()));
                out.push(span(Style::Plain, said));
            },
            ReportLine::Blank => {},
            ReportLine::Searched { files } => {
                let mut searched = "Searched ".to_owned();
                push_decimal(&mut searched, *files as u64);
                searched.append(" file(s):");
                out.push(span(Style::GreenIntense, searched));
            },
            ReportLine::Found { todos, overdue } => {
                let mut found = String::new();
                push_decimal(&mut found, *todos as u64);
                found.append(" todo(s) found");
                assert(found@ =~= decimal(*todos as nat) + " todo(s) found"@);
                out.push(span(Style::Bold, found));
                if *overdue > 0 {
                    let mut of_which = " of which ".to_owned();
                    push_decimal(&mut of_which, *overdue as u64);
                    of_which.append(" is/are overdue");
                    out.push(span(Style::BoldRed, of_which));
                }
            },
        }
        assert(span_views(out@) =~= line_spans(self@));
        out
    }

    /// What the line says, without colours.
    pub fn text(&self) -> (r: String)
        ensures
            r@ == line_text(self@),
    {
        let mut out = String::new();
        match self {
            ReportLine::Header { state, file, line_number } => {
                out.append("TODO@  ");
                out.append(file.as_str());
                out.append(":");
                push_decimal(&mut out, *line_number as u64);
                match state {
                    TodoState::Valid => {},
                    TodoState::Overdue => {
                        out.append(" [overdue]");
                    },
                    TodoState::Malformed => {
                        out.append(" is malformed!");
                    },
                }
            },
            ReportLine::Due { date, days_left } => {
                out.append("  Due:         ");
                push_date(&mut out, date);
                out.append(" (");
                push_signed_decimal(&mut out, *days_left);
                out.append(" days)");
            },
            ReportLine::Description { malformed, text } => {
                out.append("  Description: ");
                out.append(text.as_str());
            },
            ReportLine::Blank => {},
            ReportLine::Searched { files } => {
                out.append("Searched ");
                push_decimal(&mut out, *files as u64);
                out.append(" file(s):");
            },
            ReportLine::Found { todos, overdue } => {
                push_decimal(&mut out, *todos as u64);
                out.append(" todo(s) found");
                if *overdue > 0 {
                    out.append(" of which ");
                    push_decimal(&mut out, *overdue as u64);
                    out.append(" is/are overdue");
                }
            },
        }
        assert(out@ =~= line_text(self@));
        out
    }
}

/// Appends to `out` the lines that tell of one item, on the day `today`.
pub fn print_single(out: &mut Vec<ReportLine>, todo: &Todo, today: &CalendarDate)
    requires
        todo@.well_formed(),
        today.is_valid(),
    ensures
        line_views(final(out)@) == line_views(old(out)@) + item_lines(todo@, *today),
{
    let ghost before = line_views(out@);
    out.push(
        ReportLine::Header {
            state: todo.state,
            file: todo.file.clone(),
            line_number: todo.line_number,
        },
    );
    match todo.date {
        Some(date) => {
            out.push(ReportLine::Due { date, days_left: today.days_until(&date) });
        },
        None => {},
    }
    let malformed = match todo.state {
        TodoState::Malformed => true,
        _ => false,
    };
    out.push(ReportLine::Description { malformed, text: todo.description.clone() });
    out.push(ReportLine::Blank);
    assert(line_views(out@) =~= before + item_lines(todo@, *today));
}

/// The report of `results` in `mode`, on the day `today`.
pub fn print_at(mode: DisplayMode, results: &SearchResult, today: &CalendarDate) -> (r: Vec<
    ReportLine,
>)
    requires
        results@.well_formed(),
        today.is_valid(),
    ensures
        line_views(r@) == report(mode, results@, *today),
{
    let mut out: Vec<ReportLine> = Vec::new();
    let ghost todos = results@.todos;
    let mut i: usize = 0;
    assert(todos.take(0) =~= Seq::<TodoView>::empty());
    assert(line_views(out@) =~= Seq::<ReportLineView>::empty());
    while i < results.todos.len()
        invariant
            i <= results.todos.len(),
            todos == results@.todos,
            results@.well_formed(),
            today.is_valid(),
            line_views(out@) == detail_lines(mode, todos.take(i as int), *today),
        decreases results.todos.len() - i,
    {
        let todo = &results.todos[i];
        proof {
            assert(todos.take(i + 1).drop_last() =~= todos.take(i as int));
            assert(todos.take(i + 1).last() == todo@);
            assert(todos[i as int].well_formed());
        }
        if is_shown(mode, todo.state) {
            print_single(&mut out, todo, today);
        }
        i = i + 1;
    }
    assert(todos.take(i as int) =~= todos);
    let ghost details = line_views(out@);
    proof {
        crate::scan::lemma_counts_add_up(todos);
    }
    out.push(ReportLine::Searched { files: results.statistics.files_searched });
    out.push(
        ReportLine::Found {
            todos: results.statistics.valid_todo_count + results.statistics.overdue_todo_count,
            overdue: results.statistics.overdue_todo_count,
        },
    );
    assert(line_views(out@) =~= details + summary_lines(results@.statistics));
    out
}

/// The report of `results` in `mode`, on today's date as a clock set to
/// `fixed_offset` shows it at the moment of the call: that of [`print_at`]
/// for that date, or the error that the clock could not be read.
pub fn print(mode: DisplayMode, results: &SearchResult, fixed_offset: &UtcOffset) -> (r: Result<
    Vec<ReportLine>,
    ClockError,
>)
    requires
        results@.well_formed(),
        fixed_offset.is_valid(),
    ensures
        r matches Ok(lines) ==> exists|now: UtcInstant|
            now.is_valid() && line_views(lines@) == #[trigger] report(
                mode,
                results@,
                now.local_date(*fixed_offset),
            ),
{
    match UtcInstant::now() {
        Some(now) => {
            let day = now.date_at(fixed_offset);
            let lines = print_at(mode, results, &day);
            assert(line_views(lines@) == report(mode, results@, now.local_date(*fixed_offset)));
            Ok(lines)
        },
        None => Err(ClockError),
    }
}

/// The items of `todos` whose details the report shows in `mode`.
pub open spec fn shown_items(mode: DisplayMode, todos: Seq<TodoView>) -> Seq<TodoView> {
    todos.filter(|todo: TodoView| shows(mode, todo.state))
}

/// The display mode only chooses which items are told of: the detail lines of
/// a mode are the detail lines that the default mode gives for the items the
/// mode shows. In concise mode these are none; in overdue-only mode they are
/// those of the overdue and of the malformed items, and of no valid one.
pub proof fn lemma_mode_chooses_items(
    mode: DisplayMode,
    todos: Seq<TodoView>,
    today: CalendarDate,
)
    ensures
        detail_lines(mode, todos, today) == detail_lines(
            DisplayMode::Default,
            shown_items(mode, todos),
            today,
        ),
        detail_lines(DisplayMode::Concise, todos, today) == Seq::<ReportLineView>::empty(),
        forall|i: int|
            0 <= i < shown_items(DisplayMode::OverdueOnly, todos).len() ==> (
            #[trigger] shown_items(DisplayMode::OverdueOnly, todos)[i]).state
                != TodoState::Valid,
    decreases todos.len(),
{
    reveal(Seq::filter);
    if todos.len() > 0 {
        let front = todos.drop_last();
        lemma_mode_chooses_items(mode, front, today);
        if shows(mode, todos.last().state) {
            let chosen = shown_items(mode, front).push(todos.last());
            assert(chosen.drop_last() =~= shown_items(mode, front));
        }
    }
}

/// The totals do not depend on the display mode: in every mode the report
/// ends with the same two lines, which are the whole report in concise mode.
pub proof fn lemma_totals_in_every_mode(
    mode: DisplayMode,
    result: SearchResultView,
    today: CalendarDate,
)
    ensures
        report(DisplayMode::Concise, result, today) == summary_lines(result.statistics),
        report(mode, result, today).len() >= 2,
        report(mode, result, today).skip(report(mode, result, today).len() - 2)
            == summary_lines(result.statistics),
{
    lemma_mode_chooses_items(DisplayMode::Concise, result.todos, today);
    let details = detail_lines(mode, result.todos, today);
    let totals = summary_lines(result.statistics);
    assert((details + totals).skip(details.len() as int) =~= totals);
    assert(Seq::<ReportLineView>::empty() + totals =~= totals);
}

} // verus!
