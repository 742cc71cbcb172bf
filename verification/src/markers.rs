//! The pipeline's line vocabulary: which of the known markers a line of its
//! standard output carries, and the numbers that stand in them.

use vstd::prelude::*;
use crate::decimal::{parse_u32, parse_u32_in};
use crate::text::{
    chars_of, contains, contains_text, first_space, has_prefix, skip_spaces, split_two,
    split_two_in, starts_with, trim, trim_start, trim_window, word_end,
};

verus! {

/// Announces the page range of a run: `処理範囲: 3〜9`.
pub const RANGE_PREFIX: &'static str = "処理範囲:";

/// Stands between the two ends of an announced range (a wave dash).
pub const RANGE_DASH: char = '\u{301c}';

/// Opens the marker of a page that starts: `--- Page 3/9 (abs 3/12) ---`.
pub const PAGE_PREFIX: &'static str = "--- Page ";

/// Opens the marker of a page that is done: `--- Done 3/9 ---`.
pub const DONE_PREFIX: &'static str = "--- Done ";

/// Printed when the merge step starts.
pub const MERGE_MARKER: &'static str = "--- merged_md.py を実行 ---";

/// Printed when the word export starts.
pub const WORD_MARKER: &'static str = "[dispatcher] Converting to docx";

/// Printed when the spreadsheet export starts.
pub const SHEET_MARKER: &'static str = "[dispatcher] processing excel_via=json";

/// What one line of the pipeline's standard output tells.
#[derive(Clone, Copy, PartialEq, Eq, Debug)]
pub struct LineFacts {
    /// The announced page range, first and last page.
    pub range: Option<(u32, u32)>,
    /// A page started: its number and the number of pages in the run.
    pub page: Option<(u32, u32)>,
    /// A page is done: its number and the number of pages in the run.
    pub done: Option<(u32, u32)>,
    /// The merge step starts.
    pub merge: bool,
    /// The word export starts.
    pub word: bool,
    /// The spreadsheet export starts.
    pub sheet: bool,
}

/// Both numbers, where both were read.
pub open spec fn both(a: Option<u32>, b: Option<u32>) -> Option<(u32, u32)> {
    match (a, b) {
        (Some(x), Some(y)) => Some((x, y)),
        _ => None,
    }
}

/// The range that a line announces: after `RANGE_PREFIX`, the rest is
/// trimmed and cut at the dash; its first two fields, each trimmed, are
/// the first and the last page.
pub open spec fn parse_range(line: Seq<char>) -> Option<(u32, u32)> {
    if has_prefix(line, RANGE_PREFIX@) {
        match split_two(trim(line.skip(RANGE_PREFIX@.len() as int)), RANGE_DASH) {
            Some((first, last)) => both(parse_u32(trim(first)), parse_u32(trim(last))),
            None => None,
        }
    } else {
        None
    }
}

/// The two numbers of a page marker: after `prefix`, the first word of the
/// rest is cut at `/`; its first two fields are the page and the total.
pub open spec fn parse_marker(line: Seq<char>, prefix: Seq<char>) -> Option<(u32, u32)> {
    if has_prefix(line, prefix) {
        let rest = trim_start(line.skip(prefix.len() as int));
        match split_two(rest.take(first_space(rest)), '/') {
            Some((page, total)) => both(parse_u32(page), parse_u32(total)),
            None => None,
        }
    } else {
        None
    }
}

/// Everything that a line tells.
pub open spec fn line_facts(line: Seq<char>) -> LineFacts {
    LineFacts {
        range: parse_range(line),
        page: parse_marker(line, PAGE_PREFIX@),
        done: parse_marker(line, DONE_PREFIX@),
        merge: contains_text(line, MERGE_MARKER@),
        word: contains_text(line, WORD_MARKER@),
        sheet: contains_text(line, SHEET_MARKER@),
    }
}

fn both_of(a: Option<u32>, b: Option<u32>) -> (r: Option<(u32, u32)>)
    ensures
        r == both(a, b),
{
    match (a, b) {
        (Some(x), Some(y)) => Some((x, y)),
        _ => None,
    }
}

/// Reads the range that a line announces.
pub fn read_range(line: &Vec<char>) -> (r: Option<(u32, u32)>)
    ensures
        r == parse_range(line@),
{
    let prefix = chars_of(RANGE_PREFIX);
    if !starts_with(line, &prefix) {
        return None;
    }
    assert(line@.skip(prefix@.len() as int) =~= line@.subrange(
        prefix@.len() as int,
        line@.len() as int,
    ));
    let (a, b) = trim_window(line, prefix.len(), line.len());
    match split_two_in(line, a, b, RANGE_DASH) {
        Some((e0, e1)) => {
            let (a0, b0) = trim_window(line, a, e0);
            let (a1, b1) = trim_window(line, e0 + 1, e1);
            both_of(parse_u32_in(line, a0, b0), parse_u32_in(line, a1, b1))
        },
        None => None,
    }
}

/// Reads the two numbers of a page marker that opens with `prefix`.
pub fn read_marker(line: &Vec<char>, prefix: &Vec<char>) -> (r: Option<(u32, u32)>)
    ensures
        r == parse_marker(line@, prefix@),
{
    if !starts_with(line, prefix) {
        return None;
    }
    assert(line@.skip(prefix@.len() as int) =~= line@.subrange(
        prefix@.len() as int,
        line@.len() as int,
    ));
    let a: usize = skip_spaces(line, prefix.len(), line.len());
    let b: usize = word_end(line, a, line.len());
    assert(line@.subrange(a as int, line@.len() as int).take(b - a) =~= line@.subrange(
        a as int,
        b as int,
    ));
    match split_two_in(line, a, b, '/') {
        Some((e0, e1)) => both_of(parse_u32_in(line, a, e0), parse_u32_in(line, e0 + 1, e1)),
        None => None,
    }
}

/// Reads everything that `line` tells.
pub fn classify_line(line: &str) -> (facts: LineFacts)
    ensures
        facts == line_facts(line@),
{
    let cs = chars_of(line);
    let page_prefix = chars_of(PAGE_PREFIX);
    let done_prefix = chars_of(DONE_PREFIX);
    let merge = chars_of(MERGE_MARKER);
    let word = chars_of(WORD_MARKER);
    let sheet = chars_of(SHEET_MARKER);
    LineFacts {
        range: read_range(&cs),
        page: read_marker(&cs, &page_prefix),
        done: read_marker(&cs, &done_prefix),
        merge: contains(&cs, &merge),
        word: contains(&cs, &word),
        sheet: contains(&cs, &sheet),
    }
}

} // verus!
