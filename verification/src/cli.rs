//! The options of a run as plain values, and the reading of a UTC offset.
use crate::date::UtcOffset;
use crate::text::chars_of;
use vstd::prelude::*;

verus! {

/// How much of a scan's result is reported.
#[derive(Debug, Clone, Copy, PartialEq, Eq, Structural)]
pub enum DisplayMode {
    /// Only the totals.
    Concise,
    /// The totals, and the details of the items that are overdue or malformed.
    OverdueOnly,
    /// The totals and the details of every item.
    Default,
}

/// The options of a run.
#[derive(Debug)]
pub struct Args {
    /// The standard ignore rules (hidden files, the ignore files of version
    /// control) are switched off.
    pub no_ignore: bool,
    /// Overdue items do not make the run fail.
    pub no_error: bool,
    pub display_mode: DisplayMode,
    /// Where the walk begins.
    pub root_directory: String,
    /// The glob that the path of a scanned file matches.
    pub ignore_pattern: String,
    /// The offset of the clock by which "today" is decided.
    pub timezone_offset: UtcOffset,
}

/// Whether `c` is one of the digits `0` to `9`.
pub open spec fn is_digit(c: char) -> bool {
    '0' <= c <= '9'
}

/// The number that the digit `c` stands for.
pub open spec fn digit_value(c: char) -> int {
    c as u32 - '0' as u32
}

/// An offset is written at `i` in `s`: a sign, an hour from 00 to 23, a colon
/// and a minute from 00 to 59.
pub open spec fn offset_at(s: Seq<char>, i: int) -> bool {
    &&& 0 <= i
    &&& i + 6 <= s.len()
    &&& (s[i] == '+' || s[i] == '-')
    &&& is_digit(s[i + 1])
    &&& is_digit(s[i + 2])
    &&& 10 * digit_value(s[i + 1]) + digit_value(s[i + 2]) <= 23
    &&& s[i + 3] == ':'
    &&& is_digit(s[i + 4])
    &&& digit_value(s[i + 4]) <= 5
    &&& is_digit(s[i + 5])
}

/// The seconds east of UTC of the offset written at `i` in `s`.
pub open spec fn offset_seconds(s: Seq<char>, i: int) -> int {
    let hours = 10 * digit_value(s[i + 1]) + digit_value(s[i + 2]);
    let minutes = 10 * digit_value(s[i + 4]) + digit_value(s[i + 5]);
    let seconds = 3600 * hours + 60 * minutes;
    if s[i] == '+' {
        seconds
    } else {
        -seconds
    }
}

/// What a text gives as an offset: the text as a whole is an offset, a sign,
/// two digits of hours, a colon and two digits of minutes, and nothing more;
/// any other text gives nothing.
pub open spec fn offset_of(s: Seq<char>) -> Option<UtcOffset> {
    if s.len() == 6 && offset_at(s, 0) {
        Some(UtcOffset { local_minus_utc: offset_seconds(s, 0) as i32 })
    } else {
        None
    }
}

/// An offset that is written as hours and minutes is less than a day.
pub proof fn lemma_offset_in_range(s: Seq<char>, i: int)
    requires
        offset_at(s, i),
    ensures
        -86_340 <= offset_seconds(s, i) <= 86_340,
        (UtcOffset { local_minus_utc: offset_seconds(s, i) as i32 }).is_valid(),
{
}

/// A text that is no UTC offset.
#[derive(Debug, Clone, Copy, PartialEq, Eq, Structural)]
pub struct OffsetError;

impl OffsetError {
    /// What the user is told.
    pub fn message(&self) -> (r: &'static str)
        ensures
            r@ == "UTC offset does not follow the format [+|-][HH]:[SS]"@,
    {
        "UTC offset does not follow the format [+|-][HH]:[SS]"
    }
}

/// Whether `c` is one of the digits `0` to `9`.
pub fn digit(c: char) -> (r: bool)
    ensures
        r == is_digit(c),
{
    '0' <= c && c <= '9'
}

/// The number that the digit `c` stands for.
pub fn value_of_digit(c: char) -> (r: i32)
    requires
        is_digit(c),
    ensures
        r == digit_value(c),
        0 <= r <= 9,
{
    (c as u32 - '0' as u32) as i32
}

/// Whether an offset is written at `i` in `s`.
pub fn has_offset_at(s: &[char], i: usize) -> (r: bool)
    ensures
        r == offset_at(s@, i as int),
{
    if i > s.len() || s.len() - i < 6 {
        return false;
    }
    if !((s[i] == '+' || s[i] == '-') && digit(s[i + 1]) && digit(s[i + 2]) && s[i + 3] == ':'
        && digit(s[i + 4]) && digit(s[i + 5])) {
        return false;
    }
    10 * value_of_digit(s[i + 1]) + value_of_digit(s[i + 2]) <= 23 && value_of_digit(s[i + 4])
        <= 5
}

/// Reads the UTC offset of the option `--timezone-offset`.
#[derive(Debug, Clone, Copy, PartialEq, Eq, Structural)]
pub struct FixedOffsetParser;

impl FixedOffsetParser {
    /// Reads a UTC offset: a sign, two digits of hours from 00 to 23, a colon
    /// and two digits of minutes from 00 to 59, and nothing before or after.
    /// A `+` is east of UTC, a `-` west. Any other text is an error.
    pub fn parse_ref(&self, value: &str) -> (r: Result<UtcOffset, OffsetError>)
        ensures
            r is Ok <==> value@.len() == 6 && offset_at(value@, 0),
            r matches Ok(offset) ==> offset.local_minus_utc == offset_seconds(value@, 0)
                && offset_of(value@) == Some(offset) && offset.is_valid(),
            r is Err ==> offset_of(value@) is None,
    {
        let chars = chars_of(value);
        let s = chars.as_slice();
        if s.len() != 6 || !has_offset_at(s, 0) {
            return Err(OffsetError);
        }
        proof {
            lemma_offset_in_range(s@, 0);
        }
        let hours: i32 = 10 * value_of_digit(s[1]) + value_of_digit(s[2]);
        let minutes: i32 = 10 * value_of_digit(s[4]) + value_of_digit(s[5]);
        let seconds: i32 = 3600 * hours + 60 * minutes;
        if s[0] == '+' {
            Ok(UtcOffset { local_minus_utc: seconds })
        } else {
            Ok(UtcOffset { local_minus_utc: -seconds })
        }
    }
}

} // verus!
