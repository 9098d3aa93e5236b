//! The marker pattern: `@todo(`, ten characters of date, `):`, and the rest
//! of the line. Finding the markers of a line and of a whole text.
use crate::text::{chars_of, string_of, trim_bounds, trimmed};
use vstd::prelude::*;
use vstd::slice::slice_subrange;

verus! {

/// The characters with which a marker begins.
pub open spec fn marker_open() -> Seq<char> {
    seq!['@', 't', 'o', 'd', 'o', '(']
}

/// The number of characters from the start of a marker to the start of its date field.
pub const DATE_FIELD_START: usize = 6;

/// The number of characters from the start of a marker to the end of its date field.
pub const DATE_FIELD_END: usize = 16;

/// The number of characters from the start of a marker to what follows its colon.
pub const MARKER_HEAD_LEN: usize = 18;

/// A marker begins at `i` in `line`: the opening, ten characters of which none
/// is a line feed, then `)` and `:`. The ten characters need not look like a date.
pub open spec fn marker_at(line: Seq<char>, i: int) -> bool {
    &&& 0 <= i
    &&& i + MARKER_HEAD_LEN <= line.len()
    &&& line.subrange(i, i + DATE_FIELD_START) == marker_open()
    &&& forall|k: int| i + DATE_FIELD_START <= k < i + DATE_FIELD_END ==> line[k] != '\n'
    &&& line[i + 16] == ')'
    &&& line[i + 17] == ':'
}

/// The first place at or after `from` where a marker begins in `line`.
pub open spec fn first_marker(line: Seq<char>, from: int) -> Option<int>
    decreases line.len() - from,
{
    if from < 0 || from + MARKER_HEAD_LEN > line.len() {
        None
    } else if marker_at(line, from) {
        Some(from)
    } else {
        first_marker(line, from + 1)
    }
}

/// The number of characters of `s` before its first line feed, or all of them.
pub open spec fn line_len(s: Seq<char>) -> nat
    decreases s.len(),
{
    if s.len() > 0 && s[0] != '\n' {
        1 + line_len(s.drop_first())
    } else {
        0
    }
}

/// The two fields of a marker.
pub struct Marker {
    /// The ten characters between the brackets.
    pub date: Seq<char>,
    /// What follows the colon, up to the end of the line.
    pub rest: Seq<char>,
}

impl Marker {
    /// What follows the colon, without the white space around it.
    pub open spec fn description(self) -> Seq<char> {
        trimmed(self.rest)
    }
}

/// The fields of the marker that begins at `i` in `line`.
pub open spec fn marker_fields(line: Seq<char>, i: int) -> Marker {
    let tail = line.skip(i + MARKER_HEAD_LEN);
    Marker {
        date: line.subrange(i + DATE_FIELD_START, i + DATE_FIELD_END),
        rest: tail.take(line_len(tail) as int),
    }
}

/// The first marker of `line`, if it has one.
pub open spec fn marker_of(line: Seq<char>) -> Option<Marker> {
    match first_marker(line, 0) {
        Some(i) => Some(marker_fields(line, i)),
        None => None,
    }
}

/// The result of [`first_marker`] is the least place at or after `from` where
/// a marker begins.
pub proof fn lemma_first_marker(line: Seq<char>, from: int)
    requires
        0 <= from,
    ensures
        match first_marker(line, from) {
            Some(i) => from <= i && marker_at(line, i) && forall|j: int|
                from <= j < i ==> !marker_at(line, j),
            None => forall|j: int| from <= j ==> !marker_at(line, j),
        },
    decreases line.len() - from,
{
    if from + MARKER_HEAD_LEN <= line.len() && !marker_at(line, from) {
        lemma_first_marker(line, from + 1);
    }
}

/// A run of `n` characters other than line feeds at the front of `s`, followed
/// by the end of `s` or by a line feed, is the first line of `s`.
pub proof fn lemma_line_len_is(s: Seq<char>, n: nat)
    requires
        n <= s.len(),
        forall|k: int| 0 <= k < n ==> #[trigger] s[k] != '\n',
        n < s.len() ==> s[n as int] == '\n',
    ensures
        line_len(s) == n,
    decreases n,
{
    if n > 0 {
        let rest = s.drop_first();
        assert forall|k: int| 0 <= k < n - 1 implies #[trigger] rest[k] != '\n' by {
            assert(rest[k] == s[k + 1]);
        }
        lemma_line_len_is(rest, (n - 1) as nat);
    }
}

/// Where a marker lies in a line.
#[derive(Debug, Clone, Copy, PartialEq, Eq, Structural)]
pub struct MarkerSpan {
    /// Where the marker begins.
    pub start: usize,
    /// Where the line of the marker ends: at the first line feed after the
    /// colon, or at the end of the text.
    pub end: usize,
}

/// Whether a marker begins at `i` in `line`.
pub fn has_marker_at(line: &[char], i: usize) -> (r: bool)
    ensures
        r == marker_at(line@, i as int),
{
    if i > line.len() || line.len() - i < MARKER_HEAD_LEN {
        return false;
    }
    if !(line[i] == '@' && line[i + 1] == 't' && line[i + 2] == 'o' && line[i + 3] == 'd'
        && line[i + 4] == 'o' && line[i + 5] == '(') {
        assert(line@.subrange(i as int, i + 6)[0] == line@[i as int]);
        assert(line@.subrange(i as int, i + 6)[1] == line@[i + 1]);
        assert(line@.subrange(i as int, i + 6)[2] == line@[i + 2]);
        assert(line@.subrange(i as int, i + 6)[3] == line@[i + 3]);
        assert(line@.subrange(i as int, i + 6)[4] == line@[i + 4]);
        assert(line@.subrange(i as int, i + 6)[5] == line@[i + 5]);
        return false;
    }
    assert(line@.subrange(i as int, i + 6) =~= marker_open());
    let mut k: usize = i + DATE_FIELD_START;
    while k < i + DATE_FIELD_END
        invariant
            i + DATE_FIELD_START <= k <= i + DATE_FIELD_END,
            i + MARKER_HEAD_LEN <= line.len(),
            forall|j: int| i + DATE_FIELD_START <= j < k ==> line@[j] != '\n',
        decreases i + DATE_FIELD_END - k,
    {
        if line[k] == '\n' {
            return false;
        }
        k = k + 1;
    }
    line[i + 16] == ')' && line[i + 17] == ':'
}

/// Finds the first marker of `line`, and where what follows its colon ends.
pub fn find_marker(line: &[char]) -> (r: Option<MarkerSpan>)
    ensures
        match r {
            Some(span) => {
                &&& first_marker(line@, 0) == Some(span.start as int)
                &&& span.start + MARKER_HEAD_LEN <= span.end <= line.len()
                &&& line@.subrange(span.start + MARKER_HEAD_LEN, span.end as int) == marker_fields(
                    line@,
                    span.start as int,
                ).rest
            },
            None => first_marker(line@, 0) is None,
        },
{
    let n = line.len();
    if n < MARKER_HEAD_LEN {
        return None;
    }
    let mut i: usize = 0;
    while i <= n - MARKER_HEAD_LEN
        invariant
            MARKER_HEAD_LEN <= n == line.len(),
            first_marker(line@, 0) == first_marker(line@, i as int),
        decreases n - i,
    {
        if has_marker_at(line, i) {
            let from = i + MARKER_HEAD_LEN;
            let mut end: usize = from;
            while end < n && line[end] != '\n'
                invariant
                    from <= end <= n == line.len(),
                    forall|k: int| from <= k < end ==> line@[k] != '\n',
                decreases n - end,
            {
                end = end + 1;
            }
            proof {
                let tail = line@.skip(from as int);
                assert forall|k: int| 0 <= k < end - from implies #[trigger] tail[k] != '\n' by {
                    assert(tail[k] == line@[from + k]);
                }
                lemma_line_len_is(tail, (end - from) as nat);
                assert(tail.take(end - from) =~= line@.subrange(from as int, end as int));
            }
            return Some(MarkerSpan { start: i, end });
        }
        i = i + 1;
    }
    None
}

/// The lines of `text`: what stands between its line feeds. A line feed at the
/// very end begins no further line.
pub open spec fn lines_of(text: Seq<char>) -> Seq<Seq<char>>
    decreases text.len(),
{
    if text.len() == 0 {
        Seq::empty()
    } else {
        let n = line_len(text);
        if n >= text.len() {
            seq![text]
        } else {
            seq![text.take(n as int)] + lines_of(text.skip(n as int + 1))
        }
    }
}

/// A marker found in a text.
#[derive(Debug, PartialEq, Eq)]
pub struct FoundMarker {
    /// The line of the marker, counted from 1.
    pub line_number: usize,
    /// The ten characters between the brackets.
    pub date: String,
    /// What follows the colon, up to the end of the line.
    pub rest: String,
}

/// A [`FoundMarker`] as a mathematical value.
pub struct FoundMarkerView {
    pub line_number: nat,
    pub marker: Marker,
}

impl View for FoundMarker {
    type V = FoundMarkerView;

    open spec fn view(&self) -> FoundMarkerView {
        FoundMarkerView {
            line_number: self.line_number as nat,
            marker: Marker { date: self.date@, rest: self.rest@ },
        }
    }
}

impl FoundMarker {
    /// What follows the colon, without the white space around it.
    pub fn description(&self) -> (r: String)
        ensures
            r@ == self@.marker.description(),
    {
        let chars = chars_of(self.rest.as_str());
        let (from, to) = trim_bounds(chars.as_slice());
        string_of(slice_subrange(chars.as_slice(), from, to))
    }
}

/// The views of `markers`, one by one.
pub open spec fn marker_views(markers: Seq<FoundMarker>) -> Seq<FoundMarkerView> {
    markers.map_values(|m: FoundMarker| m@)
}

/// What a line with the number `line_number` gives: its first marker, or nothing.
pub open spec fn marker_in_line(line: Seq<char>, line_number: nat) -> Seq<FoundMarkerView> {
    match marker_of(line) {
        Some(marker) => seq![FoundMarkerView { line_number, marker }],
        None => Seq::empty(),
    }
}

/// The markers of `lines`, of which the first has the number `first_number`.
pub open spec fn markers_of_lines(lines: Seq<Seq<char>>, first_number: nat) -> Seq<
    FoundMarkerView,
>
    decreases lines.len(),
{
    if lines.len() == 0 {
        Seq::empty()
    } else {
        marker_in_line(lines[0], first_number) + markers_of_lines(
            lines.drop_first(),
            first_number + 1,
        )
    }
}

/// The markers of a text: the first marker of every line that has one, with
/// the number of the line, counted from 1 and with the blank lines.
pub open spec fn markers_in(text: Seq<char>) -> Seq<FoundMarkerView> {
    markers_of_lines(lines_of(text), 1)
}

/// There is at most one marker to a line; each carries the number of one of
/// the lines, and the markers stand in the order of their lines.
pub proof fn lemma_markers_of_lines(lines: Seq<Seq<char>>, first_number: nat)
    ensures
        ({
            let markers = markers_of_lines(lines, first_number);
            &&& markers.len() <= lines.len()
            &&& forall|i: int|
                0 <= i < markers.len() ==> first_number <= (#[trigger] markers[i]).line_number
                    < first_number + lines.len()
            &&& forall|i: int, j: int|
                0 <= i < j < markers.len() ==> (#[trigger] markers[i]).line_number < (
                #[trigger] markers[j]).line_number
        }),
    decreases lines.len(),
{
    if lines.len() > 0 {
        lemma_markers_of_lines(lines.drop_first(), first_number + 1);
    }
}

/// Finds the markers of a text.
pub fn find_markers(contents: &str) -> (r: Vec<FoundMarker>)
    ensures
        marker_views(r@) == markers_in(contents@),
{
    let text = chars_of(contents);
    let n = text.len();
    let mut markers: Vec<FoundMarker> = Vec::new();
    let mut pos: usize = 0;
    let mut lines_before: usize = 0;
    assert(text@.skip(0) =~= text@);
    assert(marker_views(markers@) =~= Seq::<FoundMarkerView>::empty());
    while pos < n
        invariant
            pos <= n == text.len(),
            text@ == contents@,
            lines_before <= pos,
            markers_in(text@) == marker_views(markers@) + markers_of_lines(
                lines_of(text@.skip(pos as int)),
                (lines_before + 1) as nat,
            ),
        decreases n - pos,
    {
        let mut end: usize = pos;
        while end < n && text[end] != '\n'
            invariant
                pos <= end <= n == text.len(),
                forall|k: int| pos <= k < end ==> text@[k] != '\n',
            decreases n - end,
        {
            end = end + 1;
        }
        let line = slice_subrange(text.as_slice(), pos, end);
        let ghost rest = text@.skip(pos as int);
        let ghost found = marker_views(markers@);
        proof {
            assert forall|k: int| 0 <= k < end - pos implies #[trigger] rest[k] != '\n' by {
                assert(rest[k] == text@[pos + k]);
            }
            lemma_line_len_is(rest, (end - pos) as nat);
            assert(line@ =~= rest.take(end - pos));
            if end == n {
                assert(rest.take(end - pos) =~= rest);
                assert(lines_of(rest) =~= seq![line@]);
                assert(lines_of(rest).drop_first() =~= Seq::<Seq<char>>::empty());
                assert(lines_of(text@.skip(n as int)) =~= Seq::<Seq<char>>::empty());
            } else {
                assert(rest.skip(end - pos + 1) =~= text@.skip(end + 1));
                assert(lines_of(rest).drop_first() =~= lines_of(text@.skip(end + 1)));
            }
            assert(lines_of(rest)[0] == line@);
        }
        match find_marker(line) {
            Some(span) => {
                let marker = FoundMarker {
                    line_number: lines_before + 1,
                    date: string_of(
                        slice_subrange(
                            line,
                            span.start + DATE_FIELD_START,
                            span.start + DATE_FIELD_END,
                        ),
                    ),
                    rest: string_of(slice_subrange(line, span.start + MARKER_HEAD_LEN, span.end)),
                };
                let ghost view = marker@;
                markers.push(marker);
                proof {
                    assert(view.marker == marker_fields(line@, span.start as int));
                    assert(marker_views(markers@) =~= found + seq![view]);
                    assert(marker_in_line(line@, (lines_before + 1) as nat) =~= seq![view]);
                }
            },
            None => {
                proof {
                    assert(marker_in_line(line@, (lines_before + 1) as nat) =~= Seq::<
                        FoundMarkerView,
                    >::empty());
                }
            },
        }
        proof {
            let here = marker_in_line(line@, (lines_before + 1) as nat);
            let after = markers_of_lines(lines_of(rest).drop_first(), (lines_before + 2) as nat);
            assert(found + (here + after) =~= (found + here) + after);
        }
        if end == n {
            pos = n;
        } else {
            pos = end + 1;
            lines_before = lines_before + 1;
        }
    }
    proof {
        assert(lines_of(text@.skip(n as int)) =~= Seq::<Seq<char>>::empty());
        assert(marker_views(markers@) + Seq::<FoundMarkerView>::empty() =~= marker_views(
            markers@,
        ));
    }
    markers
}

} // verus!
