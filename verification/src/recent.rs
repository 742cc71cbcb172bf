//! The listing of recent results: the result directories, newest first,
//! each with the page range that its name tells and the file to open.

use vstd::prelude::*;
use vstd::string::*;
use crate::decimal::{all_digits, all_digits_in, is_digit};
use crate::names::{merged_file_name, merged_name, plain_file_name, plain_name};
use crate::snapshot::{first_held, first_held_name, DirEntry, ResultEntry};
use crate::text::{
    chars_of, ends_with, field_end, first_char, has_suffix, is_last_occurrence, last_occurrence,
    lemma_first_char_is, name_views, occurs_at, rfind_text,
};

verus! {

/// How many results are listed where no limit is given.
pub const DEFAULT_LIMIT: u32 = 10;

/// Opens the page range in a result directory's name: `report_p3-9`.
pub const RANGE_MARK: &'static str = "_p";

/// One line of the listing of recent results.
#[derive(Debug, PartialEq, Eq)]
pub struct RecentResultEntry {
    pub dir_name: String,
    /// When the directory was last modified, in milliseconds since the epoch.
    pub updated_at_ms: u64,
    /// The page range of the run, as the directory's name tells it.
    pub page_range: Option<String>,
    /// The file to open for this result.
    pub best_file: Option<String>,
}

/// Whether `rest` is a page range: decimal digits, a dash, decimal digits,
/// with at least one digit on each side.
pub open spec fn is_page_range(rest: Seq<char>) -> bool {
    let dash = first_char(rest, '-');
    &&& 0 < dash
    &&& dash + 1 < rest.len()
    &&& all_digits(rest.take(dash))
    &&& all_digits(rest.skip(dash + 1))
}

/// The page range that a result directory's name tells: what follows the
/// last `_p` of the name, if that is a page range, with `p` in front.
pub open spec fn page_range_of(name: Seq<char>) -> Option<Seq<char>> {
    match last_occurrence(name, RANGE_MARK@) {
        Some(at) => {
            let rest = name.skip(at + RANGE_MARK@.len());
            if is_page_range(rest) {
                Some(seq!['p'] + rest)
            } else {
                None
            }
        },
        None => None,
    }
}

/// Reads the page range out of a result directory's name: `p3-9` for
/// `report_p3-9`.
pub fn parse_page_range_from_dir(dir_name: &str) -> (range: Option<String>)
    ensures
        range.deep_view() == page_range_of(dir_name@),
{
    let name = chars_of(dir_name);
    let mark = chars_of(RANGE_MARK);
    let at: usize = match rfind_text(&name, &mark) {
        Some(at) => at,
        None => {
            return None;
        },
    };
    assert(occurs_at(name@, mark@, at as int));
    let to: usize = name.len();
    let from: usize = at + mark.len();
    let ghost rest = name@.skip(at + RANGE_MARK@.len());
    assert(rest =~= name@.subrange(from as int, to as int));
    let dash: usize = field_end(&name, from, to, '-');
    if dash == from || dash >= to || dash + 1 >= to {
        return None;
    }
    assert(rest.take(dash - from) =~= name@.subrange(from as int, dash as int));
    assert(rest.skip(dash - from + 1) =~= name@.subrange(dash as int + 1, to as int));
    if !all_digits_in(&name, from, dash) || !all_digits_in(&name, dash + 1, to) {
        return None;
    }
    let mut range = String::from_str("p");
    proof {
        reveal_strlit("p");
        assert("p"@ =~= seq!['p']);
    }
    range.append(dir_name.substring_char(from, to));
    Some(range)
}

/// Every name that ends in `_p<digits>-<digits>` tells that page range.
pub proof fn lemma_page_range_form(base: Seq<char>, first: Seq<char>, last: Seq<char>)
    requires
        first.len() > 0,
        last.len() > 0,
        all_digits(first),
        all_digits(last),
    ensures
        page_range_of(base + RANGE_MARK@ + first + seq!['-'] + last) == Some(
            seq!['p'] + first + seq!['-'] + last,
        ),
{
    reveal_strlit("_p");
    let mark = RANGE_MARK@;
    assert(mark =~= seq!['_', 'p']);
    let rest = first + seq!['-'] + last;
    let name = base + mark + first + seq!['-'] + last;
    let at = base.len() as int;
    assert(name =~= base + mark + rest);
    assert(name.subrange(at, at + mark.len()) =~= mark);
    assert forall|j: int| at < j implies !occurs_at(name, mark, j) by {
        if occurs_at(name, mark, j) {
            assert(name.subrange(j, j + mark.len())[0] == mark[0]);
            assert(name[j] == '_');
            if j == at + 1 {
                assert(name[j] == mark[1]);
            } else {
                let k = j - at - 2;
                assert(name[j] == rest[k]);
                if k < first.len() {
                    assert(rest[k] == first[k]);
                    assert(is_digit(first[k]));
                } else if k == first.len() {
                    assert(rest[k] == '-');
                } else {
                    assert(rest[k] == last[k - first.len() - 1]);
                    assert(is_digit(last[k - first.len() - 1]));
                }
            }
        }
    }
    assert(is_last_occurrence(name, mark, at));
    let chosen = choose|i: int| is_last_occurrence(name, mark, i);
    assert(chosen == at);
    assert(name.skip(at + mark.len()) =~= rest);
    assert forall|k: int| 0 <= k < first.len() implies rest[k] != '-' by {
        assert(rest[k] == first[k]);
        assert(is_digit(first[k]));
    }
    assert(rest[first.len() as int] == '-');
    lemma_first_char_is(rest, '-', first.len() as int);
    assert(rest.take(first.len() as int) =~= first);
    assert(rest.skip(first.len() as int + 1) =~= last);
    assert(seq!['p'] + rest =~= seq!['p'] + first + seq!['-'] + last);
}

/// What `str::to_lowercase` makes of a text.
pub uninterp spec fn lowercase_of(s: Seq<char>) -> Seq<char>;

/// `str::to_lowercase`: the text in lower case, by the rules of Unicode.
/// The result depends on the text alone; it is named, not spelled out.
#[verifier::external_body]
fn lowercase(s: &str) -> (lower: String)
    ensures
        lower@ == lowercase_of(s@),
{
    s.to_lowercase()
}

/// The names that the file to open may go by, the likeliest first: the
/// word document, then the spreadsheet, then the table, then the text.
pub open spec fn best_conventions(dir_name: Seq<char>) -> Seq<Seq<char>> {
    seq![
        merged_name(dir_name, "docx"@),
        plain_name(dir_name, "docx"@),
        plain_name(dir_name, "xlsx"@),
        merged_name(dir_name, "xlsx"@),
        plain_name(dir_name, "csv"@),
        merged_name(dir_name, "csv"@),
        merged_name(dir_name, "md"@),
        plain_name(dir_name, "md"@),
    ]
}

/// The kinds of result file, as the end of a name tells them.
#[derive(Clone, Copy, PartialEq, Eq, Debug, Structural)]
pub enum FileKind {
    /// A word document: `.docx`.
    Word,
    /// A spreadsheet: `.xlsx`.
    Sheet,
    /// A table: `.csv`.
    Table,
    /// A text: `.md`.
    Text,
}

/// The kind of file that a name in lower case tells.
pub open spec fn kind_of(lower: Seq<char>) -> Option<FileKind> {
    if has_suffix(lower, ".docx"@) {
        Some(FileKind::Word)
    } else if has_suffix(lower, ".xlsx"@) {
        Some(FileKind::Sheet)
    } else if has_suffix(lower, ".csv"@) {
        Some(FileKind::Table)
    } else if has_suffix(lower, ".md"@) {
        Some(FileKind::Text)
    } else {
        None
    }
}

/// Whether the entry is a file of this kind, its name taken in lower case.
pub open spec fn is_of_kind(entry: DirEntry, kind: FileKind) -> bool {
    entry.is_file && kind_of(lowercase_of(entry.name@)) == Some(kind)
}

/// The first file of the directory that is of this kind.
pub open spec fn first_of_kind(entries: Seq<DirEntry>, kind: FileKind) -> Option<Seq<char>>
    decreases entries.len(),
{
    if entries.len() == 0 {
        None
    } else {
        match first_of_kind(entries.drop_last(), kind) {
            Some(name) => Some(name),
            None => if is_of_kind(entries.last(), kind) {
                Some(entries.last().name@)
            } else {
                None
            },
        }
    }
}

/// `first` where there is one, else `second`.
pub open spec fn or_else(first: Option<Seq<char>>, second: Option<Seq<char>>) -> Option<Seq<char>> {
    match first {
        Some(_) => first,
        None => second,
    }
}

/// The file to open for a result directory: the first of the conventional
/// names that is there; else the first word document, else the first
/// spreadsheet, else the first table, else the first text.
pub open spec fn best_file(entries: Seq<DirEntry>, dir_name: Seq<char>) -> Option<Seq<char>> {
    or_else(
        first_held(entries, best_conventions(dir_name)),
        or_else(
            first_of_kind(entries, FileKind::Word),
            or_else(
                first_of_kind(entries, FileKind::Sheet),
                or_else(
                    first_of_kind(entries, FileKind::Table),
                    first_of_kind(entries, FileKind::Text),
                ),
            ),
        ),
    )
}

fn best_names(dir_name: &str) -> (names: Vec<String>)
    ensures
        name_views(names@) == best_conventions(dir_name@),
{
    let mut names: Vec<String> = Vec::new();
    names.push(merged_file_name(dir_name, "docx"));
    names.push(plain_file_name(dir_name, "docx"));
    names.push(plain_file_name(dir_name, "xlsx"));
    names.push(merged_file_name(dir_name, "xlsx"));
    names.push(plain_file_name(dir_name, "csv"));
    names.push(merged_file_name(dir_name, "csv"));
    names.push(merged_file_name(dir_name, "md"));
    names.push(plain_file_name(dir_name, "md"));
    assert(name_views(names@) =~= best_conventions(dir_name@));
    names
}

/// Tells the kind of file from its name in lower case.
pub fn file_kind(lower_name: &str) -> (kind: Option<FileKind>)
    ensures
        kind == kind_of(lower_name@),
{
    let lower = chars_of(lower_name);
    if ends_with(&lower, &chars_of(".docx")) {
        Some(FileKind::Word)
    } else if ends_with(&lower, &chars_of(".xlsx")) {
        Some(FileKind::Sheet)
    } else if ends_with(&lower, &chars_of(".csv")) {
        Some(FileKind::Table)
    } else if ends_with(&lower, &chars_of(".md")) {
        Some(FileKind::Text)
    } else {
        None
    }
}

/// The kind of file that the entry is, if it is a file of a known kind.
pub open spec fn entry_kind(entry: DirEntry) -> Option<FileKind> {
    if entry.is_file {
        kind_of(lowercase_of(entry.name@))
    } else {
        None
    }
}

fn kind_of_entry(entry: &DirEntry) -> (kind: Option<FileKind>)
    ensures
        kind == entry_kind(*entry),
{
    if entry.is_file {
        file_kind(lowercase(entry.name.as_str()).as_str())
    } else {
        None
    }
}

fn note_kind(slot: &mut Option<usize>, seen: Option<FileKind>, kind: FileKind, at: usize)
    ensures
        *final(slot) == match *old(slot) {
            Some(i) => Some(i),
            None => if seen == Some(kind) {
                Some(at)
            } else {
                None
            },
        },
{
    if slot.is_none() {
        match seen {
            Some(k) => {
                if k == kind {
                    *slot = Some(at);
                }
            },
            None => {},
        }
    }
}

/// Where the first file of a kind was found.
pub open spec fn found_at(entries: Seq<DirEntry>, kind: FileKind, slot: Option<usize>) -> bool {
    match slot {
        Some(i) => i < entries.len() && first_of_kind(entries, kind) == Some(
            entries[i as int].name@,
        ),
        None => first_of_kind(entries, kind) is None,
    }
}

fn name_at(entries: &Vec<DirEntry>, slot: Option<usize>) -> (name: Option<String>)
    requires
        slot matches Some(i) ==> i < entries.len(),
    ensures
        name.deep_view() == match slot {
            Some(i) => Some(entries@[i as int].name@),
            None => None,
        },
{
    match slot {
        Some(i) => Some(entries[i].name.clone()),
        None => None,
    }
}

/// Picks the file to open for a result directory.
pub fn pick_best_file_in_dir(entries: &Vec<DirEntry>, dir_name: &str) -> (best: Option<String>)
    ensures
        best.deep_view() == best_file(entries@, dir_name@),
{
    match first_held_name(entries, best_names(dir_name)) {
        Some(name) => {
            return Some(name);
        },
        None => {},
    }
    let mut word: Option<usize> = None;
    let mut sheet: Option<usize> = None;
    let mut table: Option<usize> = None;
    let mut text: Option<usize> = None;
    let mut i: usize = 0;
    while i < entries.len()
        invariant
            i <= entries.len(),
            found_at(entries@.take(i as int), FileKind::Word, word),
            found_at(entries@.take(i as int), FileKind::Sheet, sheet),
            found_at(entries@.take(i as int), FileKind::Table, table),
            found_at(entries@.take(i as int), FileKind::Text, text),
        decreases entries.len() - i,
    {
        proof {
            assert(entries@.take(i + 1).drop_last() =~= entries@.take(i as int));
            assert(entries@.take(i + 1).last() == entries@[i as int]);
        }
        let seen = kind_of_entry(&entries[i]);
        note_kind(&mut word, seen, FileKind::Word, i);
        note_kind(&mut sheet, seen, FileKind::Sheet, i);
        note_kind(&mut table, seen, FileKind::Table, i);
        note_kind(&mut text, seen, FileKind::Text, i);
        i += 1;
    }
    assert(entries@.take(i as int) =~= entries@);
    let first: Option<usize> = if word.is_some() {
        word
    } else if sheet.is_some() {
        sheet
    } else if table.is_some() {
        table
    } else {
        text
    };
    name_at(entries, first)
}

/// When the entry was last modified, in milliseconds since the epoch, as
/// far as 64 bits hold it.
pub open spec fn modified_ms(entry: ResultEntry) -> u64 {
    ((entry.modified / 1_000_000) % 0x1_0000_0000_0000_0000) as u64
}

/// Whether entry `i` is listed before entry `j`: the one modified in a
/// later millisecond is, and of two of the same millisecond the one that
/// comes first in the directory.
pub open spec fn listed_before(results: Seq<ResultEntry>, i: int, j: int) -> bool {
    modified_ms(results[i]) > modified_ms(results[j]) || (modified_ms(results[i]) == modified_ms(
        results[j],
    ) && i < j)
}

/// `order` lists the newest directories of the results area, at most
/// `limit` of them: directories only, each before the next, none left out
/// that belongs before a listed one, and all of them if there is room.
pub open spec fn is_recent_order(results: Seq<ResultEntry>, limit: int, order: Seq<int>) -> bool {
    &&& order.len() <= limit
    &&& forall|k: int|
        0 <= k < order.len() ==> 0 <= #[trigger] order[k] < results.len() && results[order[k]].is_dir
    &&& forall|k: int, l: int|
        0 <= k < l < order.len() ==> listed_before(results, #[trigger] order[k], #[trigger] order[l])
    &&& forall|j: int, k: int|
        0 <= j < results.len() && (#[trigger] results[j]).is_dir && 0 <= k < order.len()
            && listed_before(results, j, #[trigger] order[k]) ==> exists|l: int|
            0 <= l < k && order[l] == j
    &&& order.len() < limit ==> forall|j: int|
        0 <= j < results.len() && (#[trigger] results[j]).is_dir ==> order.contains(j)
}

/// The places as the contracts see them.
pub open spec fn places(order: Seq<usize>) -> Seq<int> {
    Seq::new(order.len(), |k: int| order[k] as int)
}

fn millis(entry: &ResultEntry) -> (ms: u64)
    ensures
        ms == modified_ms(*entry),
{
    ((entry.modified / 1_000_000) % 0x1_0000_0000_0000_0000) as u64
}

fn is_listed_before(results: &Vec<ResultEntry>, i: usize, j: usize) -> (r: bool)
    requires
        i < results.len(),
        j < results.len(),
    ensures
        r == listed_before(results@, i as int, j as int),
{
    let a: u64 = millis(&results[i]);
    let b: u64 = millis(&results[j]);
    a > b || (a == b && i < j)
}

/// The directory to list next: the first of those that come after `last`.
fn next_recent(results: &Vec<ResultEntry>, last: Option<usize>) -> (next: Option<usize>)
    requires
        last matches Some(p) ==> p < results.len(),
    ensures
        match next {
            Some(b) => {
                &&& b < results.len()
                &&& results@[b as int].is_dir
                &&& last matches Some(p) ==> listed_before(results@, p as int, b as int)
                &&& forall|j: int|
                    0 <= j < results@.len() && (#[trigger] results@[j]).is_dir && j != b && (
                    last matches Some(p) ==> listed_before(results@, p as int, j))
                        ==> listed_before(results@, b as int, j)
            },
            None => forall|j: int|
                0 <= j < results@.len() && (#[trigger] results@[j]).is_dir ==> last is Some
                    && !listed_before(results@, last->0 as int, j),
        },
{
    let mut best: Option<usize> = None;
    let mut j: usize = 0;
    while j < results.len()
        invariant
            j <= results.len(),
            last matches Some(p) ==> p < results.len(),
            match best {
                Some(b) => {
                    &&& b < j
                    &&& results@[b as int].is_dir
                    &&& last matches Some(p) ==> listed_before(results@, p as int, b as int)
                    &&& forall|k: int|
                        0 <= k < j && (#[trigger] results@[k]).is_dir && k != b && (
                        last matches Some(p) ==> listed_before(results@, p as int, k))
                            ==> listed_before(results@, b as int, k)
                },
                None => forall|k: int|
                    0 <= k < j && (#[trigger] results@[k]).is_dir ==> last is Some
                        && !listed_before(results@, last->0 as int, k),
            },
        decreases results.len() - j,
    {
        if results[j].is_dir {
            let after_last: bool = match last {
                Some(p) => is_listed_before(results, p, j),
                None => true,
            };
            if after_last {
                best = match best {
                    Some(b) => {
                        if is_listed_before(results, j, b) {
                            Some(j)
                        } else {
                            Some(b)
                        }
                    },
                    None => Some(j),
                };
            }
        }
        j += 1;
    }
    best
}

/// The places of the newest directories of the results area, newest
/// first, at most `limit` of them.
pub fn recent_order(results: &Vec<ResultEntry>, limit: usize) -> (order: Vec<usize>)
    ensures
        is_recent_order(results@, limit as int, places(order@)),
{
    let mut order: Vec<usize> = Vec::new();
    let mut last: Option<usize> = None;
    let mut full: bool = false;
    while order.len() < limit && !full
        invariant
            order.len() <= limit,
            last is Some <==> order.len() > 0,
            last matches Some(p) ==> p == order@[order.len() - 1] && p < results.len(),
            forall|k: int|
                0 <= k < order.len() ==> 0 <= #[trigger] places(order@)[k] < results.len()
                    && results@[places(order@)[k]].is_dir,
            forall|k: int, l: int|
                0 <= k < l < order.len() ==> listed_before(
                    results@,
                    #[trigger] places(order@)[k],
                    #[trigger] places(order@)[l],
                ),
            forall|j: int, k: int|
                0 <= j < results@.len() && (#[trigger] results@[j]).is_dir && 0 <= k < order.len()
                    && listed_before(results@, j, #[trigger] places(order@)[k]) ==> exists|l: int|
                    0 <= l < k && places(order@)[l] == j,
            full ==> forall|j: int|
                0 <= j < results@.len() && (#[trigger] results@[j]).is_dir ==> places(
                    order@,
                ).contains(j),
        decreases (if full { 0int } else { 1int }), limit - order.len(),
    {
        let ghost before = places(order@);
        match next_recent(results, last) {
            Some(b) => {
                order.push(b);
                last = Some(b);
                proof {
                    let now = places(order@);
                    let n = before.len() as int;
                    assert(now =~= before.push(b as int));
                    assert forall|k: int, l: int| 0 <= k < l < now.len() implies listed_before(
                        results@,
                        #[trigger] now[k],
                        #[trigger] now[l],
                    ) by {
                        if l < n {
                            assert(now[k] == before[k] && now[l] == before[l]);
                        } else if k < n - 1 {
                            assert(listed_before(results@, before[k], before[n - 1]));
                        }
                    }
                    assert forall|j: int, k: int|
                        0 <= j < results@.len() && (#[trigger] results@[j]).is_dir && 0 <= k
                            < now.len() && listed_before(
                            results@,
                            j,
                            #[trigger] now[k],
                        ) implies exists|l: int| 0 <= l < k && now[l] == j by {
                        if k < n {
                            assert(now[k] == before[k]);
                            let l = choose|l: int| 0 <= l < k && before[l] == j;
                            assert(now[l] == j);
                        } else if n > 0 {
                            let p = before[n - 1];
                            if j == p {
                                assert(now[n - 1] == j);
                            } else if listed_before(results@, j, p) {
                                let l = choose|l: int| 0 <= l < n - 1 && before[l] == j;
                                assert(now[l] == j);
                            } else {
                                assert(listed_before(results@, p, j));
                            }
                        }
                    }
                }
            },
            None => {
                full = true;
                proof {
                    let now = places(order@);
                    let n = now.len() as int;
                    assert forall|j: int|
                        0 <= j < results@.len() && (#[trigger] results@[j]).is_dir implies now.contains(
                        j,
                    ) by {
                        let p = now[n - 1];
                        if j == p {
                            assert(now[n - 1] == j);
                        } else {
                            assert(listed_before(results@, j, p));
                            let l = choose|l: int| 0 <= l < n - 1 && now[l] == j;
                            assert(now[l] == j);
                        }
                    }
                }
            },
        }
    }
    order
}

/// Only one order lists the newest directories.
pub proof fn lemma_recent_order_unique(results: Seq<ResultEntry>, limit: int, a: Seq<int>, b: Seq<int>)
    requires
        is_recent_order(results, limit, a),
        is_recent_order(results, limit, b),
    ensures
        a == b,
{
    lemma_recent_prefix(results, limit, a, b, if a.len() <= b.len() {
        a.len() as int
    } else {
        b.len() as int
    });
    if a.len() < b.len() {
        let j = b[a.len() as int];
        assert(a.contains(j));
        let k = choose|k: int| 0 <= k < a.len() && a[k] == j;
        assert(b[k] == j);
        assert(listed_before(results, b[k], b[a.len() as int]));
    } else if b.len() < a.len() {
        let j = a[b.len() as int];
        assert(b.contains(j));
        let k = choose|k: int| 0 <= k < b.len() && b[k] == j;
        assert(a[k] == j);
        assert(listed_before(results, a[k], a[b.len() as int]));
    }
    assert(a =~= b);
}

proof fn lemma_recent_prefix(results: Seq<ResultEntry>, limit: int, a: Seq<int>, b: Seq<int>, n: int)
    requires
        is_recent_order(results, limit, a),
        is_recent_order(results, limit, b),
        0 <= n <= a.len(),
        n <= b.len(),
    ensures
        forall|k: int| 0 <= k < n ==> a[k] == b[k],
    decreases n,
{
    if n > 0 {
        lemma_recent_prefix(results, limit, a, b, n - 1);
        let x = a[n - 1];
        let y = b[n - 1];
        if x != y {
            if listed_before(results, x, y) {
                let l = choose|l: int| 0 <= l < n - 1 && b[l] == x;
                assert(a[l] == x);
                assert(listed_before(results, a[l], a[n - 1]));
            } else {
                assert(listed_before(results, y, x));
                let l = choose|l: int| 0 <= l < n - 1 && a[l] == y;
                assert(b[l] == y);
                assert(listed_before(results, b[l], b[n - 1]));
            }
        }
    }
}

/// The line of the listing for one result directory.
pub open spec fn describes(entry: ResultEntry, line: RecentResultEntry) -> bool {
    &&& line.dir_name@ == entry.name@
    &&& line.updated_at_ms == modified_ms(entry)
    &&& line.page_range.deep_view() == page_range_of(entry.name@)
    &&& line.best_file.deep_view() == best_file(entry.entries@, entry.name@)
}

/// How many results are listed: the limit asked for, ten where none is,
/// and never fewer than one.
pub open spec fn listing_limit(limit: Option<u32>) -> int {
    match limit {
        Some(n) => if n >= 1 {
            n as int
        } else {
            1
        },
        None => DEFAULT_LIMIT as int,
    }
}

/// Lists the newest result directories, newest first.
pub fn list_recent_results(results: &Vec<ResultEntry>, limit: Option<u32>) -> (listing: Vec<
    RecentResultEntry,
>)
    ensures
        exists|order: Seq<int>|
            {
                &&& #[trigger] is_recent_order(results@, listing_limit(limit), order)
                &&& listing@.len() == order.len()
                &&& forall|k: int|
                    0 <= k < order.len() ==> describes(results@[order[k]], #[trigger] listing@[k])
            },
{
    let wanted: u32 = match limit {
        Some(n) => if n >= 1 {
            n
        } else {
            1
        },
        None => DEFAULT_LIMIT,
    };
    let order = recent_order(results, wanted as usize);
    let mut listing: Vec<RecentResultEntry> = Vec::new();
    let mut k: usize = 0;
    while k < order.len()
        invariant
            k <= order.len(),
            listing@.len() == k,
            is_recent_order(results@, listing_limit(limit), places(order@)),
            forall|i: int|
                0 <= i < k ==> describes(results@[places(order@)[i]], #[trigger] listing@[i]),
        decreases order.len() - k,
    {
        assert(0 <= places(order@)[k as int] < results.len());
        let entry = &results[order[k]];
        listing.push(
            RecentResultEntry {
                dir_name: entry.name.clone(),
                updated_at_ms: millis(entry),
                page_range: parse_page_range_from_dir(entry.name.as_str()),
                best_file: pick_best_file_in_dir(&entry.entries, entry.name.as_str()),
            },
        );
        k += 1;
    }
    listing
}

} // verus!
