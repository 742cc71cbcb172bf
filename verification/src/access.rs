//! The guards on what may be opened or copied: a result directory is named
//! by one plain path segment and must resolve to a place inside the results
//! area, and a result file to a place inside its directory.
//!
//! A resolved path is its components in order, as the file system gives
//! them once links and `..` are resolved.

use vstd::prelude::*;
use vstd::string::*;
use crate::error::{error_text, JobError, JobErrorView};
use crate::recent::{best_file, pick_best_file_in_dir};
use crate::snapshot::DirEntry;
use crate::text::{chars_of, contains, contains_text, name_views};

verus! {

/// Whether a name may stand for a result directory: it is not empty and
/// holds neither a separator nor `..`.
pub open spec fn dir_name_error(name: Seq<char>) -> Option<JobErrorView> {
    if name.len() == 0 {
        Some(JobErrorView::EmptyDirName)
    } else if contains_text(name, seq!['/']) || contains_text(name, seq!['\\']) || contains_text(
        name,
        seq!['.', '.'],
    ) {
        Some(JobErrorView::InvalidDirName)
    } else {
        None
    }
}

/// Checks the name of a result directory before anything is looked up
/// under it.
pub fn check_result_dir_name(dir_name: &str) -> (r: Result<(), JobError>)
    ensures
        match r {
            Ok(()) => dir_name_error(dir_name@) is None,
            Err(e) => dir_name_error(dir_name@) == Some(e@),
        },
{
    let name = chars_of(dir_name);
    if name.len() == 0 {
        return Err(JobError::EmptyDirName);
    }
    let slash = chars_of("/");
    let backslash = chars_of("\\");
    let dots = chars_of("..");
    proof {
        reveal_strlit("/");
        reveal_strlit("\\");
        reveal_strlit("..");
        assert(slash@ =~= seq!['/']);
        assert(backslash@ =~= seq!['\\']);
        assert(dots@ =~= seq!['.', '.']);
    }
    if contains(&name, &slash) || contains(&name, &backslash) || contains(&name, &dots) {
        return Err(JobError::InvalidDirName);
    }
    Ok(())
}

/// Checks the name of a result directory; a name that is refused comes
/// back with the text of the refusal.
pub fn validate_result_dir_name(dir_name: &str) -> (r: Result<(), String>)
    ensures
        match r {
            Ok(()) => dir_name_error(dir_name@) is None,
            Err(text) => dir_name_error(dir_name@) matches Some(e) && text@ == error_text(e),
        },
{
    match check_result_dir_name(dir_name) {
        Ok(()) => Ok(()),
        Err(e) => Err(e.message()),
    }
}

/// Whether the resolved path `inner` lies at or below `outer`: it begins
/// with all of `outer`'s components.
pub open spec fn lies_within(outer: Seq<Seq<char>>, inner: Seq<Seq<char>>) -> bool {
    outer.len() <= inner.len() && inner.take(outer.len() as int) == outer
}

/// Whether the resolved path `inner` lies at or below `outer`.
pub fn is_within(outer: &Vec<String>, inner: &Vec<String>) -> (r: bool)
    ensures
        r == lies_within(name_views(outer@), name_views(inner@)),
{
    if outer.len() > inner.len() {
        return false;
    }
    let mut i: usize = 0;
    while i < outer.len()
        invariant
            i <= outer.len() <= inner.len(),
            forall|k: int| 0 <= k < i ==> outer@[k]@ == inner@[k]@,
        decreases outer.len() - i,
    {
        if outer[i] != inner[i] {
            assert(name_views(inner@).take(outer.len() as int)[i as int] == inner@[i as int]@);
            assert(name_views(outer@)[i as int] == outer@[i as int]@);
            return false;
        }
        i += 1;
    }
    assert(name_views(inner@).take(outer.len() as int) =~= name_views(outer@));
    true
}

/// What the file system told of a result directory that was asked for.
pub enum DirProbe {
    /// No directory of that name is in the results area.
    Missing,
    /// There is one: the resolved paths of the results area and of the
    /// directory.
    Found { results: Vec<String>, dir: Vec<String> },
}

/// Why a result directory may not be opened, if it may not.
pub open spec fn dir_refusal(dir_name: Seq<char>, probe: DirProbe) -> Option<JobErrorView> {
    match dir_name_error(dir_name) {
        Some(e) => Some(e),
        None => match probe {
            DirProbe::Missing => Some(JobErrorView::ResultDirNotFound),
            DirProbe::Found { results, dir } => if lies_within(
                name_views(results@),
                name_views(dir@),
            ) {
                None
            } else {
                Some(JobErrorView::OutsideResults)
            },
        },
    }
}

/// Decides whether a result directory may be opened: its name is checked
/// first, then that it is there, then that it resolves to a place inside
/// the results area.
pub fn admit_result_dir(dir_name: &str, probe: &DirProbe) -> (r: Result<(), JobError>)
    ensures
        match r {
            Ok(()) => dir_refusal(dir_name@, *probe) is None,
            Err(e) => dir_refusal(dir_name@, *probe) == Some(e@),
        },
{
    match check_result_dir_name(dir_name) {
        Ok(()) => {},
        Err(e) => {
            return Err(e);
        },
    }
    match probe {
        DirProbe::Missing => Err(JobError::ResultDirNotFound),
        DirProbe::Found { results, dir } => {
            if is_within(results, dir) {
                Ok(())
            } else {
                Err(JobError::OutsideResults)
            }
        },
    }
}

/// Picks the file to open in a result directory that was admitted.
pub fn pick_result_file(entries: &Vec<DirEntry>, dir_name: &str) -> (r: Result<String, JobError>)
    ensures
        match r {
            Ok(name) => best_file(entries@, dir_name@) == Some(name@),
            Err(e) => best_file(entries@, dir_name@) is None && e == JobError::NoOutputFile,
        },
{
    match pick_best_file_in_dir(entries, dir_name) {
        Some(name) => Ok(name),
        None => Err(JobError::NoOutputFile),
    }
}

/// Decides whether the file picked in a result directory may be opened: it
/// must resolve to a place inside the directory.
pub fn admit_result_file(dir: &Vec<String>, file: &Vec<String>) -> (r: Result<(), JobError>)
    ensures
        match r {
            Ok(()) => lies_within(name_views(dir@), name_views(file@)),
            Err(e) => !lies_within(name_views(dir@), name_views(file@)) && e
                == JobError::OutsideResultDir,
        },
{
    if is_within(dir, file) {
        Ok(())
    } else {
        Err(JobError::OutsideResultDir)
    }
}

/// A name that reaches for a parent directory is refused by its looks
/// alone, whatever the file system holds.
pub proof fn lemma_traversal_refused(dir_name: Seq<char>, probe: DirProbe)
    requires
        contains_text(dir_name, seq!['.', '.']) || contains_text(dir_name, seq!['/'])
            || contains_text(dir_name, seq!['\\']),
    ensures
        dir_refusal(dir_name, probe) == Some(JobErrorView::InvalidDirName),
{
    if dir_name.len() == 0 {
        let pat = if contains_text(dir_name, seq!['.', '.']) {
            seq!['.', '.']
        } else if contains_text(dir_name, seq!['/']) {
            seq!['/']
        } else {
            seq!['\\']
        };
        assert(pat.len() > 0);
    }
}

} // verus!
