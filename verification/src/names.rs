//! File names: a name's stem and extension, and the names under which the
//! pipeline writes its results.

use vstd::prelude::*;
use vstd::string::*;
use crate::text::chars_of;

verus! {

/// The stem of an input whose path names no file.
pub const DEFAULT_STEM: &'static str = "output";

/// Stands between a base name and the format of a merged result.
pub const MERGED_MARK: &'static str = "_merged.";

/// The offset of the last `c` in `s`, or -1 if it holds none.
pub open spec fn last_index(s: Seq<char>, c: char) -> int
    decreases s.len(),
{
    if s.len() == 0 {
        -1
    } else if s.last() == c {
        s.len() - 1
    } else {
        last_index(s.drop_last(), c)
    }
}

/// Whether the name splits at its last dot: it does unless it has no dot,
/// only a leading one, or is `..`.
pub open spec fn splits_at_dot(name: Seq<char>) -> bool {
    last_index(name, '.') > 0 && name != seq!['.', '.']
}

/// A file name without its extension.
pub open spec fn stem_of(name: Seq<char>) -> Seq<char> {
    if splits_at_dot(name) {
        name.take(last_index(name, '.'))
    } else {
        name
    }
}

/// A file name's extension: what follows its last dot.
pub open spec fn extension_of(name: Seq<char>) -> Option<Seq<char>> {
    if splits_at_dot(name) {
        Some(name.skip(last_index(name, '.') + 1))
    } else {
        None
    }
}

/// Whether a path reads the same wherever `/` parts the components of a
/// path: it holds no `\` and no `:`, and does not begin with `//`.
pub open spec fn is_portable(path: Seq<char>) -> bool {
    &&& !path.contains('\\')
    &&& !path.contains(':')
    &&& !(path.len() >= 2 && path[0] == '/' && path[1] == '/')
}

/// The file name of a portable path: its last segment between `/` that is
/// neither empty nor a `.` after the first segment; none if that segment
/// is `..` or a `.`, or if there is no such segment.
pub open spec fn portable_file_name(path: Seq<char>) -> Option<Seq<char>>
    decreases path.len(),
{
    let start = last_index(path, '/') + 1;
    let segment = path.skip(start);
    if segment.len() == 0 || (segment == seq!['.'] && start > 0) {
        if 0 < start <= path.len() {
            portable_file_name(path.take(start - 1))
        } else {
            None
        }
    } else if segment == seq!['.'] || segment == seq!['.', '.'] {
        None
    } else {
        Some(segment)
    }
}

/// The stems of portable paths, path by path.
pub open spec fn portable_stems(paths: Seq<Seq<char>>) -> Seq<Seq<char>> {
    Seq::new(paths.len(), |i: int| stem_for(portable_file_name(paths[i])))
}

/// Whether every one of the paths is portable.
pub open spec fn all_portable(paths: Seq<Seq<char>>) -> bool {
    forall|i: int| 0 <= i < paths.len() ==> is_portable(#[trigger] paths[i])
}

/// The stem that results are filed under for an input with this file name.
pub open spec fn stem_for(file_name: Option<Seq<char>>) -> Seq<char> {
    match file_name {
        Some(name) => stem_of(name),
        None => DEFAULT_STEM@,
    }
}

/// `<base>_merged.<format>`
pub open spec fn merged_name(base: Seq<char>, format: Seq<char>) -> Seq<char> {
    base + MERGED_MARK@ + format
}

/// `<base>.<format>`
pub open spec fn plain_name(base: Seq<char>, format: Seq<char>) -> Seq<char> {
    base + seq!['.'] + format
}

/// Characterises `last_index`: `c` stands at the offset and nowhere after.
pub proof fn lemma_last_index_is(s: Seq<char>, c: char, i: int)
    requires
        -1 <= i < s.len(),
        i >= 0 ==> s[i] == c,
        forall|k: int| i < k < s.len() ==> s[k] != c,
    ensures
        last_index(s, c) == i,
    decreases s.len(),
{
    if s.len() > 0 && s.last() != c {
        let t = s.drop_last();
        assert forall|k: int| i < k < t.len() implies t[k] != c by {
            assert(t[k] == s[k]);
        }
        lemma_last_index_is(t, c, i);
    }
}

/// The offset at which the name splits into stem and extension.
fn split_point(name: &Vec<char>) -> (r: Option<usize>)
    ensures
        match r {
            Some(d) => splits_at_dot(name@) && d == last_index(name@, '.') && 0 < d < name.len(),
            None => !splits_at_dot(name@),
        },
{
    let mut i: usize = name.len();
    while i > 0 && name[i - 1] != '.'
        invariant
            i <= name.len(),
            forall|k: int| i <= k < name.len() ==> name@[k] != '.',
        decreases i,
    {
        i -= 1;
    }
    proof {
        lemma_last_index_is(name@, '.', i as int - 1);
    }
    if i <= 1 {
        return None;
    }
    if name.len() == 2 && name[0] == '.' {
        assert(name@ =~= seq!['.', '.']);
        return None;
    }
    assert(name@ != seq!['.', '.']) by {
        if name@ == seq!['.', '.'] {
            assert(seq!['.', '.'].len() == 2);
            assert(seq!['.', '.'][0] == '.');
        }
    }
    Some(i - 1)
}

/// A file name without its extension.
pub fn file_stem(name: &str) -> (stem: String)
    ensures
        stem@ == stem_of(name@),
{
    let cs = chars_of(name);
    match split_point(&cs) {
        Some(d) => {
            assert(name@.take(d as int) =~= name@.subrange(0, d as int));
            name.substring_char(0, d).to_owned()
        },
        None => name.to_owned(),
    }
}

/// Whether the file name's extension is `extension`.
pub fn has_extension(name: &str, extension: &str) -> (r: bool)
    ensures
        r == (extension_of(name@) == Some(extension@)),
{
    let cs = chars_of(name);
    match split_point(&cs) {
        Some(d) => {
            assert(name@.skip(d as int + 1) =~= name@.subrange(d as int + 1, name@.len() as int));
            let tail = name.substring_char(d + 1, cs.len()).to_owned();
            let wanted = extension.to_owned();
            tail == wanted
        },
        None => false,
    }
}

/// The stem that results are filed under for an input with this file name.
pub fn stem_for_name(file_name: &Option<String>) -> (stem: String)
    ensures
        stem@ == stem_for(file_name.deep_view()),
{
    match file_name {
        Some(name) => file_stem(name.as_str()),
        None => DEFAULT_STEM.to_owned(),
    }
}

/// `<base>_merged.<format>`
pub fn merged_file_name(base: &str, format: &str) -> (name: String)
    ensures
        name@ == merged_name(base@, format@),
{
    let mut name = base.to_owned();
    name.append(MERGED_MARK);
    name.append(format);
    name
}

/// `<base>.<format>`
pub fn plain_file_name(base: &str, format: &str) -> (name: String)
    ensures
        name@ == plain_name(base@, format@),
{
    let mut name = base.to_owned();
    name.append(".");
    proof {
        reveal_strlit(".");
        assert("."@ =~= seq!['.']);
    }
    name.append(format);
    name
}

} // verus!
