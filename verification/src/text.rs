//! Character-level text primitives: matching, searching, trimming and
//! cutting into fields, all stated over `Seq<char>`.

use vstd::prelude::*;

verus! {

/// The characters of `s`, in order.
pub fn chars_of(s: &str) -> (out: Vec<char>)
    ensures
        out@ == s@,
{
    let mut out: Vec<char> = Vec::new();
    for c in it: s.chars()
        invariant
            out@ == it.seq().take(it.index()),
            it.seq() == s@,
    {
        out.push(c);
    }
    out
}

/// A list of texts as the contracts see it.
pub open spec fn name_views(names: Seq<String>) -> Seq<Seq<char>> {
    Seq::new(names.len(), |i: int| names[i]@)
}

/// Moves the texts of `more` to the end of `names`.
pub fn join_names(names: &mut Vec<String>, more: &mut Vec<String>)
    ensures
        name_views(final(names)@) == name_views(old(names)@) + name_views(old(more)@),
{
    names.append(more);
    assert(name_views(names@) =~= name_views(old(names)@) + name_views(old(more)@));
}

/// A copy of the texts.
pub fn clone_names(names: &Vec<String>) -> (copy: Vec<String>)
    ensures
        name_views(copy@) == name_views(names@),
{
    let mut copy: Vec<String> = Vec::new();
    let mut i: usize = 0;
    while i < names.len()
        invariant
            i <= names.len(),
            copy@.len() == i,
            forall|k: int| 0 <= k < i ==> (#[trigger] copy@[k])@ == names@[k]@,
        decreases names.len() - i,
    {
        copy.push(names[i].clone());
        i += 1;
    }
    assert(name_views(copy@) =~= name_views(names@));
    copy
}

/// `pat` stands in `s` at character offset `i`.
pub open spec fn occurs_at(s: Seq<char>, pat: Seq<char>, i: int) -> bool {
    &&& 0 <= i
    &&& i + pat.len() <= s.len()
    &&& s.subrange(i, i + pat.len()) == pat
}

/// `s` begins with `pat`.
pub open spec fn has_prefix(s: Seq<char>, pat: Seq<char>) -> bool {
    occurs_at(s, pat, 0)
}

/// `s` ends with `pat`.
pub open spec fn has_suffix(s: Seq<char>, pat: Seq<char>) -> bool {
    occurs_at(s, pat, s.len() - pat.len())
}

/// `pat` stands somewhere in `s`.
pub open spec fn contains_text(s: Seq<char>, pat: Seq<char>) -> bool {
    exists|i: int| occurs_at(s, pat, i)
}

/// Whether `pat` stands in `s` at character offset `i`.
pub fn matches_at(s: &Vec<char>, pat: &Vec<char>, i: usize) -> (r: bool)
    ensures
        r == occurs_at(s@, pat@, i as int),
{
    if pat.len() > s.len() || i > s.len() - pat.len() {
        return false;
    }
    let mut k: usize = 0;
    while k < pat.len()
        invariant
            k <= pat.len(),
            i + pat.len() <= s.len(),
            forall|j: int| 0 <= j < k ==> s@[i + j] == pat@[j],
        decreases pat.len() - k,
    {
        if s[i + k] != pat[k] {
            assert(s@.subrange(i as int, i + pat@.len())[k as int] == s@[i + k]);
            return false;
        }
        k += 1;
    }
    assert(s@.subrange(i as int, i + pat@.len()) =~= pat@);
    true
}

/// Whether `s` begins with `pat`.
pub fn starts_with(s: &Vec<char>, pat: &Vec<char>) -> (r: bool)
    ensures
        r == has_prefix(s@, pat@),
{
    matches_at(s, pat, 0)
}

/// Whether `s` ends with `pat`.
pub fn ends_with(s: &Vec<char>, pat: &Vec<char>) -> (r: bool)
    ensures
        r == has_suffix(s@, pat@),
{
    if pat.len() > s.len() {
        return false;
    }
    matches_at(s, pat, s.len() - pat.len())
}

/// The offset of the first occurrence of `pat` in `s`, if there is one.
pub fn find_text(s: &Vec<char>, pat: &Vec<char>) -> (r: Option<usize>)
    ensures
        match r {
            Some(i) => occurs_at(s@, pat@, i as int) && forall|j: int|
                0 <= j < i ==> !occurs_at(s@, pat@, j),
            None => !contains_text(s@, pat@),
        },
{
    if pat.len() > s.len() {
        return None;
    }
    let last: usize = s.len() - pat.len();
    let mut i: usize = 0;
    loop
        invariant
            i <= last,
            last == s.len() - pat.len(),
            forall|j: int| 0 <= j < i ==> !occurs_at(s@, pat@, j),
        decreases last - i,
    {
        if matches_at(s, pat, i) {
            return Some(i);
        }
        if i == last {
            return None;
        }
        i += 1;
    }
}

/// `pat` stands in `s` at offset `i` and nowhere after.
pub open spec fn is_last_occurrence(s: Seq<char>, pat: Seq<char>, i: int) -> bool {
    occurs_at(s, pat, i) && forall|j: int| i < j ==> !occurs_at(s, pat, j)
}

/// The offset of the last occurrence of `pat` in `s`, if there is one.
pub open spec fn last_occurrence(s: Seq<char>, pat: Seq<char>) -> Option<int> {
    if exists|i: int| is_last_occurrence(s, pat, i) {
        Some(choose|i: int| is_last_occurrence(s, pat, i))
    } else {
        None
    }
}

/// The offset of the last occurrence of `pat` in `s`, if there is one.
pub fn rfind_text(s: &Vec<char>, pat: &Vec<char>) -> (r: Option<usize>)
    ensures
        match r {
            Some(i) => is_last_occurrence(s@, pat@, i as int) && last_occurrence(s@, pat@) == Some(
                i as int,
            ),
            None => !contains_text(s@, pat@) && last_occurrence(s@, pat@) is None,
        },
{
    if pat.len() > s.len() {
        return None;
    }
    let mut i: usize = s.len() - pat.len();
    loop
        invariant
            i <= s.len() - pat.len(),
            pat.len() <= s.len(),
            forall|j: int| i < j ==> !occurs_at(s@, pat@, j),
        decreases i,
    {
        if matches_at(s, pat, i) {
            proof {
                assert(is_last_occurrence(s@, pat@, i as int));
                let chosen = choose|k: int| is_last_occurrence(s@, pat@, k);
                assert(chosen == i);
            }
            return Some(i);
        }
        if i == 0 {
            return None;
        }
        i -= 1;
    }
}

/// Whether `pat` stands somewhere in `s`.
pub fn contains(s: &Vec<char>, pat: &Vec<char>) -> (r: bool)
    ensures
        r == contains_text(s@, pat@),
{
    find_text(s, pat).is_some()
}

/// Whether two texts hold the same characters.
pub fn same_text(a: &Vec<char>, b: &Vec<char>) -> (r: bool)
    ensures
        r == (a@ == b@),
{
    if a.len() != b.len() {
        return false;
    }
    let r = matches_at(a, b, 0);
    assert(a@.subrange(0, a@.len() as int) =~= a@);
    r
}

/// Whether two strings hold the same characters.
pub fn same_str(a: &str, b: &str) -> (r: bool)
    ensures
        r == (a@ == b@),
{
    a.to_owned() == b.to_owned()
}

/// The white-space characters: those that `trim` and word splitting skip.
pub open spec fn is_space(c: char) -> bool {
    let u = c as u32;
    ||| 0x09 <= u <= 0x0d
    ||| u == 0x20
    ||| u == 0x85
    ||| u == 0xa0
    ||| u == 0x1680
    ||| 0x2000 <= u <= 0x200a
    ||| u == 0x2028
    ||| u == 0x2029
    ||| u == 0x202f
    ||| u == 0x205f
    ||| u == 0x3000
}

/// Whether `c` is a white-space character.
pub fn is_space_char(c: char) -> (r: bool)
    ensures
        r == is_space(c),
{
    let u: u32 = c as u32;
    (0x09 <= u && u <= 0x0d) || u == 0x20 || u == 0x85 || u == 0xa0 || u == 0x1680 || (0x2000 <= u
        && u <= 0x200a) || u == 0x2028 || u == 0x2029 || u == 0x202f || u == 0x205f || u == 0x3000
}

/// `s` without its leading white space.
pub open spec fn trim_start(s: Seq<char>) -> Seq<char>
    decreases s.len(),
{
    if s.len() > 0 && is_space(s[0]) {
        trim_start(s.drop_first())
    } else {
        s
    }
}

/// `s` without its trailing white space.
pub open spec fn trim_end(s: Seq<char>) -> Seq<char>
    decreases s.len(),
{
    if s.len() > 0 && is_space(s.last()) {
        trim_end(s.drop_last())
    } else {
        s
    }
}

/// `s` without white space at either end.
pub open spec fn trim(s: Seq<char>) -> Seq<char> {
    trim_end(trim_start(s))
}

/// The window `[a, b)` of `s[from..to)` that is left after trimming.
pub fn trim_window(s: &Vec<char>, from: usize, to: usize) -> (w: (usize, usize))
    requires
        from <= to <= s.len(),
    ensures
        from <= w.0 <= w.1 <= to,
        s@.subrange(w.0 as int, w.1 as int) == trim(s@.subrange(from as int, to as int)),
{
    let a: usize = skip_spaces(s, from, to);
    let mut b: usize = to;
    while b > a && is_space_char(s[b - 1])
        invariant
            a <= b <= to <= s.len(),
            trim_end(s@.subrange(a as int, to as int)) == trim_end(s@.subrange(a as int, b as int)),
        decreases b,
    {
        assert(s@.subrange(a as int, b as int).drop_last() =~= s@.subrange(
            a as int,
            b as int - 1,
        ));
        b -= 1;
    }
    (a, b)
}

/// The offset of the first `c` in `s`, or the length of `s` if it holds none.
pub open spec fn first_char(s: Seq<char>, c: char) -> int
    decreases s.len(),
{
    if s.len() == 0 || s[0] == c {
        0
    } else {
        1 + first_char(s.drop_first(), c)
    }
}

/// The offset of the first white-space character in `s`, or its length.
pub open spec fn first_space(s: Seq<char>) -> int
    decreases s.len(),
{
    if s.len() == 0 || is_space(s[0]) {
        0
    } else {
        1 + first_space(s.drop_first())
    }
}

/// Characterises `first_char`: nothing before the offset is `c`, and the
/// offset is the end or holds `c`.
pub proof fn lemma_first_char_is(s: Seq<char>, c: char, i: int)
    requires
        0 <= i <= s.len(),
        forall|k: int| 0 <= k < i ==> s[k] != c,
        i == s.len() || s[i] == c,
    ensures
        first_char(s, c) == i,
    decreases s.len(),
{
    if s.len() > 0 && s[0] != c {
        let t = s.drop_first();
        assert forall|k: int| 0 <= k < i - 1 implies t[k] != c by {
            assert(t[k] == s[k + 1]);
        }
        lemma_first_char_is(t, c, i - 1);
    }
}

/// Characterises `first_space`: nothing before the offset is white space,
/// and the offset is the end or holds white space.
pub proof fn lemma_first_space_is(s: Seq<char>, i: int)
    requires
        0 <= i <= s.len(),
        forall|k: int| 0 <= k < i ==> !is_space(s[k]),
        i == s.len() || is_space(s[i]),
    ensures
        first_space(s) == i,
    decreases s.len(),
{
    if s.len() > 0 && !is_space(s[0]) {
        let t = s.drop_first();
        assert forall|k: int| 0 <= k < i - 1 implies !is_space(t[k]) by {
            assert(t[k] == s[k + 1]);
        }
        lemma_first_space_is(t, i - 1);
    }
}

/// The end of the field of `s[from..to)` that starts at `from` and runs up
/// to the first `sep`.
pub fn field_end(s: &Vec<char>, from: usize, to: usize, sep: char) -> (e: usize)
    requires
        from <= to <= s.len(),
    ensures
        from <= e <= to,
        e - from == first_char(s@.subrange(from as int, to as int), sep),
{
    let mut e: usize = from;
    while e < to && s[e] != sep
        invariant
            from <= e <= to <= s.len(),
            forall|k: int| from <= k < e ==> s@[k] != sep,
        decreases to - e,
    {
        e += 1;
    }
    proof {
        lemma_first_char_is(s@.subrange(from as int, to as int), sep, e - from);
    }
    e
}

/// The end of the word of `s[from..to)` that starts at `from`.
pub fn word_end(s: &Vec<char>, from: usize, to: usize) -> (e: usize)
    requires
        from <= to <= s.len(),
    ensures
        from <= e <= to,
        e - from == first_space(s@.subrange(from as int, to as int)),
{
    let mut e: usize = from;
    while e < to && !is_space_char(s[e])
        invariant
            from <= e <= to <= s.len(),
            forall|k: int| from <= k < e ==> !is_space(s@[k]),
        decreases to - e,
    {
        e += 1;
    }
    proof {
        lemma_first_space_is(s@.subrange(from as int, to as int), e - from);
    }
    e
}

/// Where `s[from..to)` begins once its leading white space is skipped.
pub fn skip_spaces(s: &Vec<char>, from: usize, to: usize) -> (a: usize)
    requires
        from <= to <= s.len(),
    ensures
        from <= a <= to,
        s@.subrange(a as int, to as int) == trim_start(s@.subrange(from as int, to as int)),
{
    let mut a: usize = from;
    while a < to && is_space_char(s[a])
        invariant
            from <= a <= to <= s.len(),
            trim_start(s@.subrange(from as int, to as int)) == trim_start(
                s@.subrange(a as int, to as int),
            ),
        decreases to - a,
    {
        assert(s@.subrange(a as int, to as int).drop_first() =~= s@.subrange(
            a as int + 1,
            to as int,
        ));
        a += 1;
    }
    a
}

/// The first two fields of `s` when it is cut at each `sep`; none if `s`
/// holds no `sep`.
pub open spec fn split_two(s: Seq<char>, sep: char) -> Option<(Seq<char>, Seq<char>)> {
    let e0 = first_char(s, sep);
    if e0 >= s.len() {
        None
    } else {
        let tail = s.skip(e0 + 1);
        Some((s.take(e0), tail.take(first_char(tail, sep))))
    }
}

/// The ends `(e0, e1)` of the first two fields of `s[from..to)`: the fields
/// are `s[from..e0)` and `s[e0 + 1..e1)`.
pub fn split_two_in(s: &Vec<char>, from: usize, to: usize, sep: char) -> (r: Option<(usize, usize)>)
    requires
        from <= to <= s.len(),
    ensures
        match r {
            Some((e0, e1)) => from <= e0 < to && e0 + 1 <= e1 <= to && split_two(
                s@.subrange(from as int, to as int),
                sep,
            ) == Some((s@.subrange(from as int, e0 as int), s@.subrange(e0 as int + 1, e1 as int))),
            None => split_two(s@.subrange(from as int, to as int), sep) is None,
        },
{
    let e0: usize = field_end(s, from, to, sep);
    if e0 >= to {
        return None;
    }
    let e1: usize = field_end(s, e0 + 1, to, sep);
    proof {
        let w = s@.subrange(from as int, to as int);
        let tail = w.skip(e0 - from + 1);
        assert(tail =~= s@.subrange(e0 as int + 1, to as int));
        assert(w.take(e0 - from) =~= s@.subrange(from as int, e0 as int));
        assert(tail.take(e1 - e0 - 1) =~= s@.subrange(e0 as int + 1, e1 as int));
    }
    Some((e0, e1))
}

} // verus!
