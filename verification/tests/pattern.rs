use grep::matcher::{Captures, Matcher};
use grep::regex::RegexMatcher;
use grep::searcher::{sinks::UTF8, Searcher};
use todo_ci::cli::FixedOffsetParser;
use todo_ci::marker::find_markers;

const MARKER_PATTERN: &str = r"@todo\((?P<date>.{10})\):(?P<description>.*)";
// The pattern of an offset, held to the whole of the text.
const OFFSET_PATTERN: &str = r"\A(-|\+)(0[0-9]|1[0-9]|2[0-3]):([0-5][0-9])\z";

/// A small generator of numbers, the same on every run.
struct Numbers(u64);

impl Numbers {
    fn next(&mut self, below: usize) -> usize {
        self.0 = self.0.wrapping_mul(6364136223846793005).wrapping_add(1442695040888963407);
        ((self.0 >> 33) as usize) % below
    }
}

fn text_of(numbers: &mut Numbers, pieces: &[&str], max_pieces: usize) -> String {
    let count = numbers.next(max_pieces + 1);
    let mut text = String::new();
    for _ in 0..count {
        text.push_str(pieces[numbers.next(pieces.len())]);
    }
    text
}

/// The markers of `text` as a line-by-line search with the pattern gives
/// them: the line number, the date field, the rest of the line and the rest
/// once trimmed.
fn by_the_pattern(matcher: &RegexMatcher, text: &str) -> Vec<(u64, String, String, String)> {
    let mut found = Vec::new();
    Searcher::new()
        .search_slice(
            matcher,
            text.as_bytes(),
            UTF8(|lnum, line| {
                let mut captures = matcher.new_captures()?;
                matcher.captures(line.as_bytes(), &mut captures)?;
                let date = &line[captures.get(1).unwrap()];
                let rest = &line[captures.get(2).unwrap()];
                found.push((lnum, date.to_string(), rest.to_string(), rest.trim().to_string()));
                Ok(true)
            }),
        )
        .unwrap();
    found
}

fn by_the_library(text: &str) -> Vec<(u64, String, String, String)> {
    find_markers(text)
        .into_iter()
        .map(|marker| {
            let description = marker.description();
            (marker.line_number as u64, marker.date, marker.rest, description)
        })
        .collect()
}

#[test]
fn markers_are_found_as_the_pattern_finds_them() {
    let matcher = RegexMatcher::new_line_matcher(MARKER_PATTERN).unwrap();
    assert_eq!(matcher.capture_count(), 3);
    assert_eq!(matcher.capture_index("date"), Some(1));
    assert_eq!(matcher.capture_index("description"), Some(2));
    for text in [
        "",
        "\n",
        "@todo(2024-01-10): fix this",
        "@todo(2024-01-10): fix this\n",
        "  // @todo(2024-01-10):   fix this  \r\n// @todo(XX-XX-XX-X):\n\n@todo(2030-01-01):x",
        "@todo(@todo(2024-01-10): nested",
        "@todo(@todo(123456): x):",
        "@todo(2024\n01-10): split\n@todo(2024-01-10)\n: split",
        "@todo(äöüäöüäöüä): ümlaut \u{a0}\n@todo(äöüäöüäöü): too short",
        "@todo(2024-01-10):\u{3000}wide space\u{2003}\n",
        "@todo(0123456789):@todo(0123456789):@todo(0123456789):",
    ] {
        assert_eq!(by_the_library(text), by_the_pattern(&matcher, text), "{:?}", text);
    }

    let pieces = [
        "@todo(", "@todo(", "@todo", "todo(", "@", "(", ")", ":", "):", "): ", "2024-01-10",
        "@todo(2024-01-10):", "@todo(XX-XX-XX-X): ", "@todo(2030-01-01)", "2024-01-10):",
        "XX-XX-XX-X", "0123456789", "01234", "x", " ", "  ", "\t", "\n", "\n", "\r\n", "é",
        "\u{a0}", "\u{1F600}", "-", "fix this",
    ];
    let mut numbers = Numbers(7);
    let mut with_markers = 0;
    for _ in 0..4_000 {
        let text = text_of(&mut numbers, &pieces, 14);
        let expected = by_the_pattern(&matcher, &text);
        if !expected.is_empty() {
            with_markers += 1;
        }
        assert_eq!(by_the_library(&text), expected, "{:?}", text);
    }
    assert!(with_markers > 100);
}

/// The offset that `text` is by the pattern, in seconds east of UTC.
fn offset_by_the_pattern(matcher: &RegexMatcher, text: &str) -> Option<i32> {
    let mut captures = matcher.new_captures().unwrap();
    if !matcher.captures(text.as_bytes(), &mut captures).unwrap() {
        return None;
    }
    let seconds = 3600 * text[captures.get(2).unwrap()].parse::<i32>().unwrap()
        + 60 * text[captures.get(3).unwrap()].parse::<i32>().unwrap();
    if &text[captures.get(1).unwrap()] == "+" {
        Some(seconds)
    } else {
        Some(-seconds)
    }
}

fn offset_by_the_library(text: &str) -> Option<i32> {
    FixedOffsetParser.parse_ref(text).ok().map(|offset| offset.local_minus_utc)
}

#[test]
fn offsets_are_read_as_the_pattern_reads_them() {
    let matcher = RegexMatcher::new(OFFSET_PATTERN).unwrap();
    assert_eq!(matcher.capture_count(), 4);
    for hours in 0..30 {
        for minutes in 0..70 {
            for sign in ["+", "-", ""] {
                let text = format!("{}{:02}:{:02}", sign, hours, minutes);
                let expected = if sign.is_empty() || hours > 23 || minutes > 59 {
                    None
                } else if sign == "+" {
                    Some(3600 * hours + 60 * minutes)
                } else {
                    Some(-(3600 * hours + 60 * minutes))
                };
                assert_eq!(offset_by_the_pattern(&matcher, &text), expected, "{:?}", text);
                assert_eq!(offset_by_the_library(&text), expected, "{:?}", text);
            }
        }
    }

    let pieces = [
        "+", "-", "+", "-", ":", ":", "0", "1", "2", "3", "4", "5", "6", "9", "00", "05", "23",
        "24", "59", "60", "x", " ", "é", "٠",
    ];
    let mut numbers = Numbers(11);
    let mut with_offsets = 0;
    for _ in 0..4_000 {
        let text = if numbers.next(4) == 0 {
            let mut text = String::from(pieces[numbers.next(2)]);
            text.push_str(&format!("{:02}:{:02}", numbers.next(26), numbers.next(62)));
            let extra = if numbers.next(8) == 0 { 1 } else { 0 };
            text.push_str(&text_of(&mut numbers, &pieces, extra));
            text
        } else {
            text_of(&mut numbers, &pieces, 6)
        };
        let expected = offset_by_the_pattern(&matcher, &text);
        if expected.is_some() {
            with_offsets += 1;
        }
        assert_eq!(offset_by_the_library(&text), expected, "{:?}", text);
    }
    assert!(with_offsets > 100);
}
