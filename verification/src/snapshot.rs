//! What the file system held when it was looked at: the results area and
//! the project root as plain listings. Whoever reads the disk fills these
//! in; everything that is decided on them is decided here.

use vstd::prelude::*;
use vstd::string::*;
use crate::text::name_views;

verus! {

/// One entry of a directory.
#[derive(Debug)]
pub struct DirEntry {
    pub name: String,
    /// Whether the entry is a regular file.
    pub is_file: bool,
}

/// One entry of the results area.
#[derive(Debug)]
pub struct ResultEntry {
    pub name: String,
    /// Whether the entry is a directory.
    pub is_dir: bool,
    /// When it was last modified, in nanoseconds since the epoch.
    pub modified: u128,
    /// What it holds, in directory order, if it is a directory.
    pub entries: Vec<DirEntry>,
}

/// The results area and the project root.
#[derive(Debug)]
pub struct ResultsSnapshot {
    /// The entries of the results area, in directory order.
    pub results: Vec<ResultEntry>,
    /// The entries directly under the project root.
    pub root: Vec<DirEntry>,
}

/// A file that was found: under the result directory `dir`, or directly
/// under the project root.
#[derive(Debug, PartialEq, Eq)]
pub struct FoundFile {
    pub dir: Option<String>,
    pub name: String,
}

/// A found file as the contracts see it.
pub struct FoundView {
    pub dir: Option<Seq<char>>,
    pub name: Seq<char>,
}

impl View for FoundFile {
    type V = FoundView;

    open spec fn view(&self) -> FoundView {
        FoundView { dir: self.dir.deep_view(), name: self.name@ }
    }
}

/// The files as the contracts see them.
pub open spec fn found_views(files: Seq<FoundFile>) -> Seq<FoundView> {
    Seq::new(files.len(), |i: int| files[i]@)
}

/// Whether the directory holds an entry of this name.
pub open spec fn holds_name(entries: Seq<DirEntry>, name: Seq<char>) -> bool {
    exists|i: int| 0 <= i < entries.len() && (#[trigger] entries[i]).name@ == name
}

/// The first of `names` that the directory holds.
pub open spec fn first_held(entries: Seq<DirEntry>, names: Seq<Seq<char>>) -> Option<Seq<char>>
    decreases names.len(),
{
    if names.len() == 0 {
        None
    } else if holds_name(entries, names[0]) {
        Some(names[0])
    } else {
        first_held(entries, names.drop_first())
    }
}

/// Whether the snapshot holds the file.
pub open spec fn snapshot_holds(snapshot: ResultsSnapshot, file: FoundView) -> bool {
    match file.dir {
        Some(dir) => exists|i: int|
            0 <= i < snapshot.results@.len() && (#[trigger] snapshot.results@[i]).name@ == dir
                && snapshot.results@[i].is_dir && holds_name(
                snapshot.results@[i].entries@,
                file.name,
            ),
        None => holds_name(snapshot.root@, file.name),
    }
}

/// Whether the directory holds an entry of this name.
pub fn holds(entries: &Vec<DirEntry>, name: &String) -> (r: bool)
    ensures
        r == holds_name(entries@, name@),
{
    let mut i: usize = 0;
    while i < entries.len()
        invariant
            i <= entries.len(),
            forall|k: int| 0 <= k < i ==> (#[trigger] entries@[k]).name@ != name@,
        decreases entries.len() - i,
    {
        if entries[i].name == *name {
            return true;
        }
        i += 1;
    }
    false
}

/// The first of `names` that the directory holds.
pub fn first_held_name(entries: &Vec<DirEntry>, names: Vec<String>) -> (r: Option<String>)
    ensures
        r.deep_view() == first_held(entries@, name_views(names@)),
{
    let ghost all = name_views(names@);
    let mut i: usize = 0;
    assert(all.skip(0) =~= all);
    while i < names.len()
        invariant
            i <= names.len(),
            all == name_views(names@),
            first_held(entries@, all) == first_held(entries@, all.skip(i as int)),
        decreases names.len() - i,
    {
        assert(all.skip(i as int)[0] == names@[i as int]@);
        if holds(entries, &names[i]) {
            return Some(names[i].clone());
        }
        assert(all.skip(i as int).drop_first() =~= all.skip(i as int + 1));
        i += 1;
    }
    None
}

} // verus!
