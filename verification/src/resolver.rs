//! The output resolver: which result files a job's inputs have left behind.
//!
//! For each input the newest result directory filed under its stem is
//! searched by the pipeline's naming conventions, then the project root.
//! Every file reported is in the snapshot, and none is reported twice.

use vstd::prelude::*;
use vstd::string::*;
use crate::names::{
    all_portable, extension_of, has_extension, is_portable, merged_file_name, merged_name,
    plain_file_name, plain_name, portable_file_name, portable_stems, stem_for, stem_for_name,
};
use crate::snapshot::{
    first_held, first_held_name, found_views, holds, holds_name, snapshot_holds,
    DirEntry, FoundFile, FoundView, ResultEntry, ResultsSnapshot,
};
use crate::text::{chars_of, has_prefix, join_names, name_views, same_str, starts_with};

verus! {

/// The format whose results are every `.csv` file of the directory.
pub const CSV: &'static str = "csv";

/// The format whose results go by the spreadsheet's own names first.
pub const XLSX: &'static str = "xlsx";

/// Whether a result directory is filed under `stem`: it is a directory
/// named `<stem>` or `<stem>_<suffix>`.
pub open spec fn files_under(entry: ResultEntry, stem: Seq<char>) -> bool {
    entry.is_dir && (entry.name@ == stem || has_prefix(entry.name@, stem + seq!['_']))
}

/// Whether entry `i` is taken before entry `j`: the later modified one is;
/// of two modified at the same time, the one named exactly `<stem>`, and
/// else the one that comes first in the directory.
pub open spec fn preferred(results: Seq<ResultEntry>, stem: Seq<char>, i: int, j: int) -> bool {
    let a = results[i];
    let b = results[j];
    ||| a.modified > b.modified
    ||| a.modified == b.modified && a.name@ == stem && b.name@ != stem
    ||| a.modified == b.modified && (a.name@ == stem) == (b.name@ == stem) && i < j
}

/// Entry `i` is the result directory to search for `stem`: it is filed
/// under `stem` and taken before every other that is.
pub open spec fn is_latest(results: Seq<ResultEntry>, stem: Seq<char>, i: int) -> bool {
    &&& 0 <= i < results.len()
    &&& files_under(results[i], stem)
    &&& forall|j: int|
        0 <= j < results.len() && j != i && files_under(#[trigger] results[j], stem) ==> preferred(
            results,
            stem,
            i,
            j,
        )
}

/// The result directory to search for `stem`, if any is filed under it.
pub open spec fn latest_dir(results: Seq<ResultEntry>, stem: Seq<char>) -> Option<int> {
    if exists|i: int| is_latest(results, stem, i) {
        Some(choose|i: int| is_latest(results, stem, i))
    } else {
        None
    }
}

/// The names of the directory's `.csv` files, in directory order.
pub open spec fn csv_names(entries: Seq<DirEntry>) -> Seq<Seq<char>>
    decreases entries.len(),
{
    if entries.len() == 0 {
        Seq::empty()
    } else {
        let rest = csv_names(entries.drop_last());
        let entry = entries.last();
        if entry.is_file && extension_of(entry.name@) == Some(CSV@) {
            rest.push(entry.name@)
        } else {
            rest
        }
    }
}

/// The names that a result of `format` may go by in a result directory,
/// the likeliest first.
pub open spec fn dir_conventions(dir_name: Seq<char>, stem: Seq<char>, format: Seq<char>) -> Seq<
    Seq<char>,
> {
    if format == XLSX@ {
        seq![
            plain_name(dir_name, format),
            plain_name(stem, format),
            merged_name(dir_name, format),
            merged_name(stem, format),
        ]
    } else {
        seq![
            merged_name(dir_name, format),
            merged_name(stem, format),
            plain_name(stem, format),
            plain_name(dir_name, format),
        ]
    }
}

/// `name` if the directory holds it.
pub open spec fn if_held(entries: Seq<DirEntry>, name: Seq<char>) -> Seq<Seq<char>> {
    if holds_name(entries, name) {
        seq![name]
    } else {
        Seq::empty()
    }
}

/// The results of one format in a result directory: every `.csv` file for
/// `csv`, else the first name of the format's conventions that is there.
pub open spec fn names_in_dir(dir: ResultEntry, stem: Seq<char>, format: Seq<char>) -> Seq<
    Seq<char>,
> {
    if format == CSV@ {
        csv_names(dir.entries@)
    } else {
        match first_held(dir.entries@, dir_conventions(dir.name@, stem, format)) {
            Some(name) => seq![name],
            None => Seq::empty(),
        }
    }
}

/// The results of one format directly under the project root.
pub open spec fn names_in_root(root: Seq<DirEntry>, stem: Seq<char>, format: Seq<char>) -> Seq<
    Seq<char>,
> {
    if_held(root, merged_name(stem, format)) + if_held(root, plain_name(stem, format))
}

/// The results of all formats in a result directory, format by format.
pub open spec fn dir_names(dir: ResultEntry, stem: Seq<char>, formats: Seq<Seq<char>>) -> Seq<
    Seq<char>,
>
    decreases formats.len(),
{
    if formats.len() == 0 {
        Seq::empty()
    } else {
        dir_names(dir, stem, formats.drop_last()) + names_in_dir(dir, stem, formats.last())
    }
}

/// The results of all formats directly under the project root.
pub open spec fn root_names(root: Seq<DirEntry>, stem: Seq<char>, formats: Seq<Seq<char>>) -> Seq<
    Seq<char>,
>
    decreases formats.len(),
{
    if formats.len() == 0 {
        Seq::empty()
    } else {
        root_names(root, stem, formats.drop_last()) + names_in_root(root, stem, formats.last())
    }
}

/// The files of these names in one place.
pub open spec fn placed(dir: Option<Seq<char>>, names: Seq<Seq<char>>) -> Seq<FoundView> {
    Seq::new(names.len(), |i: int| FoundView { dir, name: names[i] })
}

/// What one input has left behind: first in its result directory, then
/// under the project root.
pub open spec fn input_files(snapshot: ResultsSnapshot, stem: Seq<char>, formats: Seq<Seq<char>>) -> Seq<
    FoundView,
> {
    let in_dir = match latest_dir(snapshot.results@, stem) {
        Some(i) => placed(
            Some(snapshot.results@[i].name@),
            dir_names(snapshot.results@[i], stem, formats),
        ),
        None => Seq::empty(),
    };
    in_dir + placed(None, root_names(snapshot.root@, stem, formats))
}

/// What all inputs have left behind, input by input.
pub open spec fn all_files(snapshot: ResultsSnapshot, stems: Seq<Seq<char>>, formats: Seq<Seq<char>>) -> Seq<
    FoundView,
>
    decreases stems.len(),
{
    if stems.len() == 0 {
        Seq::empty()
    } else {
        all_files(snapshot, stems.drop_last(), formats) + input_files(
            snapshot,
            stems.last(),
            formats,
        )
    }
}

/// `files` with each file kept where it first stands.
pub open spec fn without_repeats(files: Seq<FoundView>) -> Seq<FoundView>
    decreases files.len(),
{
    if files.len() == 0 {
        Seq::empty()
    } else {
        let kept = without_repeats(files.drop_last());
        if kept.contains(files.last()) {
            kept
        } else {
            kept.push(files.last())
        }
    }
}

/// The result files of a job whose inputs have these stems.
pub open spec fn collected(snapshot: ResultsSnapshot, stems: Seq<Seq<char>>, formats: Seq<Seq<char>>) -> Seq<
    FoundView,
> {
    without_repeats(all_files(snapshot, stems, formats))
}

/// The result directory that is searched was modified no earlier than any
/// other that is filed under the stem.
pub proof fn lemma_latest_is_newest(results: Seq<ResultEntry>, stem: Seq<char>, i: int, j: int)
    requires
        is_latest(results, stem, i),
        0 <= j < results.len(),
        files_under(results[j], stem),
    ensures
        results[j].modified <= results[i].modified,
{
}

/// Only one entry can be the result directory to search.
pub proof fn lemma_latest_unique(results: Seq<ResultEntry>, stem: Seq<char>, i: int, j: int)
    requires
        is_latest(results, stem, i),
        is_latest(results, stem, j),
    ensures
        i == j,
{
    if i != j {
        assert(preferred(results, stem, i, j));
        assert(preferred(results, stem, j, i));
    }
}

fn is_filed_under(entry: &ResultEntry, stem: &String, marked: &Vec<char>) -> (r: bool)
    requires
        marked@ == stem@ + seq!['_'],
    ensures
        r == files_under(*entry, stem@),
{
    if !entry.is_dir {
        return false;
    }
    if entry.name == *stem {
        return true;
    }
    let name = chars_of(entry.name.as_str());
    starts_with(&name, marked)
}

fn is_preferred(results: &Vec<ResultEntry>, stem: &String, i: usize, j: usize) -> (r: bool)
    requires
        i < results.len(),
        j < results.len(),
    ensures
        r == preferred(results@, stem@, i as int, j as int),
{
    let a = &results[i];
    let b = &results[j];
    if a.modified != b.modified {
        return a.modified > b.modified;
    }
    let a_exact: bool = a.name == *stem;
    let b_exact: bool = b.name == *stem;
    if a_exact != b_exact {
        return a_exact;
    }
    i < j
}

/// Picks the result directory to search for `stem`: the one modified last
/// of those filed under it.
pub fn pick_latest_result_dir(results: &Vec<ResultEntry>, stem: &str) -> (r: Option<usize>)
    ensures
        match r {
            Some(i) => is_latest(results@, stem@, i as int) && latest_dir(results@, stem@) == Some(
                i as int,
            ),
            None => latest_dir(results@, stem@) is None && forall|j: int|
                0 <= j < results@.len() ==> !files_under(#[trigger] results@[j], stem@),
        },
{
    let owned: String = stem.to_owned();
    let mut marked_text: String = stem.to_owned();
    marked_text.append("_");
    proof {
        reveal_strlit("_");
        assert("_"@ =~= seq!['_']);
    }
    let marked = chars_of(marked_text.as_str());
    let mut best: Option<usize> = None;
    let mut j: usize = 0;
    while j < results.len()
        invariant
            j <= results.len(),
            owned@ == stem@,
            marked@ == stem@ + seq!['_'],
            match best {
                Some(b) => b < j && files_under(results@[b as int], stem@) && forall|k: int|
                    0 <= k < j && k != b && files_under(#[trigger] results@[k], stem@)
                        ==> preferred(results@, stem@, b as int, k),
                None => forall|k: int| 0 <= k < j ==> !files_under(#[trigger] results@[k], stem@),
            },
        decreases results.len() - j,
    {
        if is_filed_under(&results[j], &owned, &marked) {
            best = match best {
                None => Some(j),
                Some(b) => {
                    if is_preferred(results, &owned, j, b) {
                        Some(j)
                    } else {
                        Some(b)
                    }
                },
            };
        }
        j += 1;
    }
    proof {
        match best {
            Some(b) => {
                assert(is_latest(results@, stem@, b as int));
                let chosen = choose|i: int| is_latest(results@, stem@, i);
                lemma_latest_unique(results@, stem@, b as int, chosen);
            },
            None => {
                assert forall|i: int| !is_latest(results@, stem@, i) by {
                    if 0 <= i < results@.len() {
                        assert(!files_under(results@[i], stem@));
                    }
                }
            },
        }
    }
    best
}

/// The names of the directory's `.csv` files, in directory order.
pub fn csv_file_names(entries: &Vec<DirEntry>) -> (names: Vec<String>)
    ensures
        name_views(names@) == csv_names(entries@),
{
    let mut names: Vec<String> = Vec::new();
    let mut i: usize = 0;
    assert(name_views(names@) =~= csv_names(entries@.take(0)));
    while i < entries.len()
        invariant
            i <= entries.len(),
            name_views(names@) == csv_names(entries@.take(i as int)),
        decreases entries.len() - i,
    {
        proof {
            assert(entries@.take(i + 1).drop_last() =~= entries@.take(i as int));
            assert(entries@.take(i + 1).last() == entries@[i as int]);
        }
        let ghost before = name_views(names@);
        if entries[i].is_file && has_extension(entries[i].name.as_str(), CSV) {
            names.push(entries[i].name.clone());
            assert(name_views(names@) =~= before.push(entries@[i as int].name@));
        }
        i += 1;
    }
    assert(entries@.take(i as int) =~= entries@);
    names
}

fn conventions(dir_name: &str, stem: &str, format: &str) -> (names: Vec<String>)
    ensures
        name_views(names@) == dir_conventions(dir_name@, stem@, format@),
{
    let mut names: Vec<String> = Vec::new();
    if same_str(format, XLSX) {
        names.push(plain_file_name(dir_name, format));
        names.push(plain_file_name(stem, format));
        names.push(merged_file_name(dir_name, format));
        names.push(merged_file_name(stem, format));
    } else {
        names.push(merged_file_name(dir_name, format));
        names.push(merged_file_name(stem, format));
        names.push(plain_file_name(stem, format));
        names.push(plain_file_name(dir_name, format));
    }
    assert(name_views(names@) =~= dir_conventions(dir_name@, stem@, format@));
    names
}

/// The results of one format in a result directory.
pub fn result_names_in_dir(dir: &ResultEntry, stem: &str, format: &str) -> (names: Vec<String>)
    ensures
        name_views(names@) == names_in_dir(*dir, stem@, format@),
{
    if same_str(format, CSV) {
        return csv_file_names(&dir.entries);
    }
    let mut names: Vec<String> = Vec::new();
    match first_held_name(&dir.entries, conventions(dir.name.as_str(), stem, format)) {
        Some(name) => {
            names.push(name);
            assert(name_views(names@) =~= seq![name@]);
        },
        None => {
            assert(name_views(names@) =~= Seq::<Seq<char>>::empty());
        },
    }
    names
}

/// The results of one format directly under the project root.
pub fn result_names_in_root(root: &Vec<DirEntry>, stem: &str, format: &str) -> (names: Vec<String>)
    ensures
        name_views(names@) == names_in_root(root@, stem@, format@),
{
    let mut names: Vec<String> = Vec::new();
    let merged = merged_file_name(stem, format);
    if holds(root, &merged) {
        names.push(merged);
    }
    let plain = plain_file_name(stem, format);
    if holds(root, &plain) {
        names.push(plain);
    }
    assert(name_views(names@) =~= names_in_root(root@, stem@, format@));
    names
}

fn place(names: Vec<String>, dir: &Option<String>) -> (files: Vec<FoundFile>)
    ensures
        found_views(files@) == placed(dir.deep_view(), name_views(names@)),
{
    let mut files: Vec<FoundFile> = Vec::new();
    let mut i: usize = 0;
    while i < names.len()
        invariant
            i <= names.len(),
            files@.len() == i,
            forall|k: int| 0 <= k < i ==> (#[trigger] files@[k])@ == (FoundView {
                dir: dir.deep_view(),
                name: names@[k]@,
            }),
        decreases names.len() - i,
    {
        let held: Option<String> = match dir {
            Some(d) => Some(d.clone()),
            None => None,
        };
        files.push(FoundFile { dir: held, name: names[i].clone() });
        i += 1;
    }
    assert(found_views(files@) =~= placed(dir.deep_view(), name_views(names@)));
    files
}

fn join_files(files: &mut Vec<FoundFile>, more: &mut Vec<FoundFile>)
    ensures
        found_views(final(files)@) == found_views(old(files)@) + found_views(old(more)@),
{
    files.append(more);
    assert(found_views(files@) =~= found_views(old(files)@) + found_views(old(more)@));
}

/// What one input has left behind.
pub fn files_of_input(snapshot: &ResultsSnapshot, stem: &str, formats: &Vec<String>) -> (files: Vec<
    FoundFile,
>)
    ensures
        found_views(files@) == input_files(*snapshot, stem@, name_views(formats@)),
{
    let ghost all = name_views(formats@);
    let mut files: Vec<FoundFile> = Vec::new();
    match pick_latest_result_dir(&snapshot.results, stem) {
        Some(chosen) => {
            let dir = &snapshot.results[chosen];
            let mut names: Vec<String> = Vec::new();
            let mut k: usize = 0;
            assert(name_views(names@) =~= dir_names(*dir, stem@, all.take(0)));
            while k < formats.len()
                invariant
                    k <= formats.len(),
                    all == name_views(formats@),
                    name_views(names@) == dir_names(*dir, stem@, all.take(k as int)),
                decreases formats.len() - k,
            {
                proof {
                    assert(all.take(k + 1).drop_last() =~= all.take(k as int));
                    assert(all.take(k + 1).last() == formats@[k as int]@);
                }
                let mut more = result_names_in_dir(dir, stem, formats[k].as_str());
                join_names(&mut names, &mut more);
                k += 1;
            }
            assert(all.take(k as int) =~= all);
            let dir_name: Option<String> = Some(dir.name.clone());
            files = place(names, &dir_name);
        },
        None => {
            assert(found_views(files@) =~= Seq::<FoundView>::empty());
        },
    }
    let mut names: Vec<String> = Vec::new();
    let mut k: usize = 0;
    assert(name_views(names@) =~= root_names(snapshot.root@, stem@, all.take(0)));
    while k < formats.len()
        invariant
            k <= formats.len(),
            all == name_views(formats@),
            name_views(names@) == root_names(snapshot.root@, stem@, all.take(k as int)),
        decreases formats.len() - k,
    {
        proof {
            assert(all.take(k + 1).drop_last() =~= all.take(k as int));
            assert(all.take(k + 1).last() == formats@[k as int]@);
        }
        let mut more = result_names_in_root(&snapshot.root, stem, formats[k].as_str());
        join_names(&mut names, &mut more);
        k += 1;
    }
    assert(all.take(k as int) =~= all);
    let mut under_root = place(names, &None);
    join_files(&mut files, &mut under_root);
    files
}

fn same_file(a: &FoundFile, b: &FoundFile) -> (r: bool)
    ensures
        r == (a@ == b@),
{
    if a.name != b.name {
        return false;
    }
    match (&a.dir, &b.dir) {
        (Some(x), Some(y)) => *x == *y,
        (None, None) => true,
        _ => false,
    }
}

fn is_among(files: &Vec<FoundFile>, file: &FoundFile) -> (r: bool)
    ensures
        r == found_views(files@).contains(file@),
{
    let mut i: usize = 0;
    while i < files.len()
        invariant
            i <= files.len(),
            forall|k: int| 0 <= k < i ==> found_views(files@)[k] != file@,
        decreases files.len() - i,
    {
        if same_file(&files[i], file) {
            assert(found_views(files@)[i as int] == file@);
            return true;
        }
        i += 1;
    }
    false
}

/// `files` with each file kept where it first stands.
pub fn drop_repeats(files: Vec<FoundFile>) -> (kept: Vec<FoundFile>)
    ensures
        found_views(kept@) == without_repeats(found_views(files@)),
{
    let ghost all = found_views(files@);
    let mut kept: Vec<FoundFile> = Vec::new();
    let mut i: usize = 0;
    assert(found_views(kept@) =~= without_repeats(all.take(0)));
    while i < files.len()
        invariant
            i <= files.len(),
            all == found_views(files@),
            found_views(kept@) == without_repeats(all.take(i as int)),
        decreases files.len() - i,
    {
        proof {
            assert(all.take(i + 1).drop_last() =~= all.take(i as int));
            assert(all.take(i + 1).last() == files@[i as int]@);
        }
        let ghost before = found_views(kept@);
        if !is_among(&kept, &files[i]) {
            let dir: Option<String> = match &files[i].dir {
                Some(d) => Some(d.clone()),
                None => None,
            };
            let file = FoundFile { dir, name: files[i].name.clone() };
            assert(file@ == files@[i as int]@);
            kept.push(file);
            assert(found_views(kept@) =~= before.push(files@[i as int]@));
        }
        i += 1;
    }
    assert(all.take(i as int) =~= all);
    kept
}

/// The result files of a job whose inputs have these stems, for these
/// formats: what each input has left behind, input by input, each file
/// once.
pub fn collect_for_stems(snapshot: &ResultsSnapshot, stems: &Vec<String>, formats: &Vec<String>) -> (files:
    Vec<FoundFile>)
    ensures
        found_views(files@) == collected(*snapshot, name_views(stems@), name_views(formats@)),
        found_views(files@).no_duplicates(),
        forall|k: int|
            0 <= k < files@.len() ==> snapshot_holds(*snapshot, #[trigger] found_views(files@)[k]),
{
    proof {
        lemma_collected_sound(*snapshot, name_views(stems@), name_views(formats@));
    }
    let ghost all = name_views(stems@);
    let ghost wanted = name_views(formats@);
    let mut files: Vec<FoundFile> = Vec::new();
    let mut i: usize = 0;
    assert(found_views(files@) =~= all_files(*snapshot, all.take(0), wanted));
    while i < stems.len()
        invariant
            i <= stems.len(),
            all == name_views(stems@),
            wanted == name_views(formats@),
            found_views(files@) == all_files(*snapshot, all.take(i as int), wanted),
        decreases stems.len() - i,
    {
        proof {
            assert(all.take(i + 1).drop_last() =~= all.take(i as int));
            assert(all.take(i + 1).last() == stems@[i as int]@);
        }
        let mut more = files_of_input(snapshot, stems[i].as_str(), formats);
        join_files(&mut files, &mut more);
        i += 1;
    }
    assert(all.take(i as int) =~= all);
    drop_repeats(files)
}

/// `std::path::Path::file_name`: the last component of `path`, or none
/// where the path ends in `..` or names no file. Repeated and trailing
/// separators count for nothing, and neither does a `.` but at the very
/// beginning. What parts the components is the platform's business; the
/// result is stated for the paths that read the same wherever `/` parts
/// them, as it does on Unix and on Windows, and for no others.
#[verifier::external_body]
fn path_file_name(path: &str) -> (name: Option<String>)
    ensures
        is_portable(path@) ==> name.deep_view() == portable_file_name(path@),
{
    match std::path::Path::new(path).file_name() {
        Some(name) => Some(name.to_string_lossy().into_owned()),
        None => None,
    }
}

/// The stem that the results of the input at `path` are filed under: that
/// of the path's file name.
pub fn input_stem(path: &str) -> (stem: String)
    ensures
        is_portable(path@) ==> stem@ == stem_for(portable_file_name(path@)),
        exists|file_name: Option<Seq<char>>| stem@ == stem_for(file_name),
{
    let name = path_file_name(path);
    let stem = stem_for_name(&name);
    assert(stem@ == stem_for(name.deep_view()));
    stem
}

/// The stems of all inputs, in order.
fn input_stems(inputs: &Vec<String>) -> (stems: Vec<String>)
    ensures
        stems@.len() == inputs@.len(),
        forall|i: int|
            0 <= i < inputs@.len() && is_portable(inputs@[i]@) ==> (#[trigger] stems@[i])@
                == stem_for(portable_file_name(inputs@[i]@)),
{
    let mut stems: Vec<String> = Vec::new();
    let mut i: usize = 0;
    while i < inputs.len()
        invariant
            i <= inputs.len(),
            stems@.len() == i,
            forall|k: int|
                0 <= k < i && is_portable(inputs@[k]@) ==> (#[trigger] stems@[k])@ == stem_for(
                    portable_file_name(inputs@[k]@),
                ),
        decreases inputs.len() - i,
    {
        stems.push(input_stem(inputs[i].as_str()));
        i += 1;
    }
    stems
}

/// The result files of a job on `inputs` for `formats`: those of the
/// inputs' stems. Where every input is a portable path the stems are
/// those of the paths' file names; for other paths they are what the
/// platform makes of them.
pub fn collect_output_files(snapshot: &ResultsSnapshot, inputs: &Vec<String>, formats: &Vec<String>) -> (files:
    Vec<FoundFile>)
    ensures
        all_portable(name_views(inputs@)) ==> found_views(files@) == collected(
            *snapshot,
            portable_stems(name_views(inputs@)),
            name_views(formats@),
        ),
        exists|stems: Seq<Seq<char>>|
            stems.len() == inputs@.len() && found_views(files@) == #[trigger] collected(
                *snapshot,
                stems,
                name_views(formats@),
            ),
        found_views(files@).no_duplicates(),
        forall|k: int|
            0 <= k < files@.len() ==> snapshot_holds(*snapshot, #[trigger] found_views(files@)[k]),
{
    let stems = input_stems(inputs);
    proof {
        if all_portable(name_views(inputs@)) {
            assert forall|i: int| 0 <= i < inputs@.len() implies (#[trigger] name_views(
                stems@,
            )[i]) == portable_stems(name_views(inputs@))[i] by {
                assert(is_portable(name_views(inputs@)[i]));
                assert(stems@[i]@ == stem_for(portable_file_name(inputs@[i]@)));
            }
            assert(name_views(stems@) =~= portable_stems(name_views(inputs@)));
        }
    }
    collect_for_stems(snapshot, &stems, formats)
}

/// Dropping repeats leaves no file twice.
pub proof fn lemma_without_repeats_distinct(files: Seq<FoundView>)
    ensures
        without_repeats(files).no_duplicates(),
    decreases files.len(),
{
    if files.len() > 0 {
        lemma_without_repeats_distinct(files.drop_last());
    }
}

/// Dropping repeats loses no file and adds none.
pub proof fn lemma_without_repeats_members(files: Seq<FoundView>, f: FoundView)
    ensures
        without_repeats(files).contains(f) <==> files.contains(f),
    decreases files.len(),
{
    if files.len() > 0 {
        let front = files.drop_last();
        let kept = without_repeats(front);
        let last = files.last();
        let out = without_repeats(files);
        lemma_without_repeats_members(front, f);
        lemma_without_repeats_members(front, last);
        if files.contains(f) {
            let i = choose|i: int| 0 <= i < files.len() && files[i] == f;
            if i < front.len() {
                assert(front[i] == f);
                assert(front.contains(f));
            }
        }
        if front.contains(f) {
            let i = choose|i: int| 0 <= i < front.len() && front[i] == f;
            assert(files[i] == f);
        }
        assert(files[files.len() - 1] == last);
        assert(files.contains(f) <==> (front.contains(f) || f == last));
        if kept.contains(last) {
            assert(out == kept);
        } else {
            assert(out == kept.push(last));
            if out.contains(f) {
                let k = choose|k: int| 0 <= k < out.len() && out[k] == f;
                if k < kept.len() {
                    assert(kept[k] == f);
                    assert(kept.contains(f));
                }
            }
            if kept.contains(f) {
                let k = choose|k: int| 0 <= k < kept.len() && kept[k] == f;
                assert(out[k] == f);
            }
            assert(out[kept.len() as int] == last);
        }
        assert(out.contains(f) <==> (kept.contains(f) || f == last));
    }
}

/// Each name found in a result directory is the name of one of its
/// entries.
proof fn lemma_dir_names_held(dir: ResultEntry, stem: Seq<char>, formats: Seq<Seq<char>>)
    ensures
        forall|k: int|
            0 <= k < dir_names(dir, stem, formats).len() ==> holds_name(
                dir.entries@,
                #[trigger] dir_names(dir, stem, formats)[k],
            ),
    decreases formats.len(),
{
    if formats.len() > 0 {
        lemma_dir_names_held(dir, stem, formats.drop_last());
        let format = formats.last();
        let before = dir_names(dir, stem, formats.drop_last());
        let here = names_in_dir(dir, stem, format);
        if format == CSV@ {
            lemma_csv_names_held(dir.entries@);
        } else {
            lemma_first_held(dir.entries@, dir_conventions(dir.name@, stem, format));
        }
        assert forall|k: int| 0 <= k < (before + here).len() implies holds_name(
            dir.entries@,
            #[trigger] (before + here)[k],
        ) by {
            if k < before.len() {
                assert((before + here)[k] == before[k]);
            } else {
                assert((before + here)[k] == here[k - before.len()]);
            }
        }
    }
}

proof fn lemma_csv_names_held(entries: Seq<DirEntry>)
    ensures
        forall|k: int|
            0 <= k < csv_names(entries).len() ==> holds_name(
                entries,
                #[trigger] csv_names(entries)[k],
            ),
    decreases entries.len(),
{
    if entries.len() > 0 {
        lemma_csv_names_held(entries.drop_last());
        assert forall|k: int| 0 <= k < csv_names(entries).len() implies holds_name(
            entries,
            #[trigger] csv_names(entries)[k],
        ) by {
            let rest = csv_names(entries.drop_last());
            if k < rest.len() {
                assert(holds_name(entries.drop_last(), rest[k]));
                let i = choose|i: int|
                    0 <= i < entries.drop_last().len() && (#[trigger] entries.drop_last()[i]).name@
                        == rest[k];
                assert(entries[i].name@ == rest[k]);
            } else {
                assert(entries[entries.len() - 1].name@ == csv_names(entries)[k]);
            }
        }
    }
}

proof fn lemma_first_held(entries: Seq<DirEntry>, names: Seq<Seq<char>>)
    ensures
        first_held(entries, names) matches Some(name) ==> holds_name(entries, name),
    decreases names.len(),
{
    if names.len() > 0 && !holds_name(entries, names[0]) {
        lemma_first_held(entries, names.drop_first());
    }
}

/// Each name found under the project root is the name of one of its
/// entries.
proof fn lemma_root_names_held(root: Seq<DirEntry>, stem: Seq<char>, formats: Seq<Seq<char>>)
    ensures
        forall|k: int|
            0 <= k < root_names(root, stem, formats).len() ==> holds_name(
                root,
                #[trigger] root_names(root, stem, formats)[k],
            ),
    decreases formats.len(),
{
    if formats.len() > 0 {
        lemma_root_names_held(root, stem, formats.drop_last());
        let format = formats.last();
        let before = root_names(root, stem, formats.drop_last());
        let merged = if_held(root, merged_name(stem, format));
        let plain = if_held(root, plain_name(stem, format));
        let here = merged + plain;
        assert forall|k: int| 0 <= k < here.len() implies holds_name(root, #[trigger] here[k]) by {
            if k < merged.len() {
                assert(here[k] == merged[k]);
            } else {
                assert(here[k] == plain[k - merged.len()]);
            }
        }
        assert forall|k: int| 0 <= k < (before + here).len() implies holds_name(
            root,
            #[trigger] (before + here)[k],
        ) by {
            if k < before.len() {
                assert((before + here)[k] == before[k]);
            } else {
                assert((before + here)[k] == here[k - before.len()]);
            }
        }
    }
}

/// Every file that an input has left behind is in the snapshot.
proof fn lemma_input_files_held(snapshot: ResultsSnapshot, stem: Seq<char>, formats: Seq<Seq<char>>)
    ensures
        forall|k: int|
            0 <= k < input_files(snapshot, stem, formats).len() ==> snapshot_holds(
                snapshot,
                #[trigger] input_files(snapshot, stem, formats)[k],
            ),
{
    lemma_root_names_held(snapshot.root@, stem, formats);
    let under_root = placed(None, root_names(snapshot.root@, stem, formats));
    let in_dir = match latest_dir(snapshot.results@, stem) {
        Some(i) => placed(
            Some(snapshot.results@[i].name@),
            dir_names(snapshot.results@[i], stem, formats),
        ),
        None => Seq::empty(),
    };
    match latest_dir(snapshot.results@, stem) {
        Some(i) => {
            assert(is_latest(snapshot.results@, stem, i));
            lemma_dir_names_held(snapshot.results@[i], stem, formats);
        },
        None => {},
    }
    assert forall|k: int| 0 <= k < (in_dir + under_root).len() implies snapshot_holds(
        snapshot,
        #[trigger] (in_dir + under_root)[k],
    ) by {
        if k < in_dir.len() {
            assert((in_dir + under_root)[k] == in_dir[k]);
            let i = latest_dir(snapshot.results@, stem)->0;
            let names = dir_names(snapshot.results@[i], stem, formats);
            assert(holds_name(snapshot.results@[i].entries@, names[k]));
            assert(snapshot.results@[i].name@ == in_dir[k].dir->0);
        } else {
            let names = root_names(snapshot.root@, stem, formats);
            assert((in_dir + under_root)[k] == under_root[k - in_dir.len()]);
            assert(holds_name(snapshot.root@, names[k - in_dir.len()]));
        }
    }
}

proof fn lemma_all_files_held(snapshot: ResultsSnapshot, stems: Seq<Seq<char>>, formats: Seq<Seq<char>>)
    ensures
        forall|k: int|
            0 <= k < all_files(snapshot, stems, formats).len() ==> snapshot_holds(
                snapshot,
                #[trigger] all_files(snapshot, stems, formats)[k],
            ),
    decreases stems.len(),
{
    if stems.len() > 0 {
        lemma_all_files_held(snapshot, stems.drop_last(), formats);
        lemma_input_files_held(snapshot, stems.last(), formats);
        let before = all_files(snapshot, stems.drop_last(), formats);
        let here = input_files(snapshot, stems.last(), formats);
        assert forall|k: int| 0 <= k < (before + here).len() implies snapshot_holds(
            snapshot,
            #[trigger] (before + here)[k],
        ) by {
            if k < before.len() {
                assert((before + here)[k] == before[k]);
            } else {
                assert((before + here)[k] == here[k - before.len()]);
            }
        }
    }
}

/// No file is reported twice, and every file reported is in the snapshot.
pub proof fn lemma_collected_sound(snapshot: ResultsSnapshot, stems: Seq<Seq<char>>, formats: Seq<Seq<char>>)
    ensures
        collected(snapshot, stems, formats).no_duplicates(),
        forall|k: int|
            0 <= k < collected(snapshot, stems, formats).len() ==> snapshot_holds(
                snapshot,
                #[trigger] collected(snapshot, stems, formats)[k],
            ),
{
    let all = all_files(snapshot, stems, formats);
    lemma_without_repeats_distinct(all);
    lemma_all_files_held(snapshot, stems, formats);
    assert forall|k: int| 0 <= k < collected(snapshot, stems, formats).len() implies snapshot_holds(
        snapshot,
        #[trigger] collected(snapshot, stems, formats)[k],
    ) by {
        let f = collected(snapshot, stems, formats)[k];
        assert(without_repeats(all).contains(f));
        lemma_without_repeats_members(all, f);
        assert(all.contains(f));
        let i = choose|i: int| 0 <= i < all.len() && all[i] == f;
        assert(snapshot_holds(snapshot, all[i]));
    }
}

} // verus!
