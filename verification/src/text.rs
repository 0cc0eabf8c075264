//! Character sequences: the conversions between strings and vectors of
//! characters, and searching and replacing inside them.

use vstd::prelude::*;

verus! {

/// `String::push` of the standard library. Trusted: the string afterwards
/// is the string before with `ch` at its end.
pub assume_specification[ String::push ](s: &mut String, ch: char)
    ensures
        final(s)@ == old(s)@.push(ch),
;

/// The characters of `s`, in order.
pub fn chars_of(s: &str) -> (v: Vec<char>)
    ensures
        v@ == s@,
{
    let mut v: Vec<char> = Vec::new();
    for c in it: s.chars()
        invariant
            it.seq() == s@,
            v@ == it.seq().take(it.index() as int),
    {
        v.push(c);
    }
    v
}

/// The string made of the characters of `v`, in order.
pub fn string_of(v: &Vec<char>) -> (s: String)
    ensures
        s@ == v@,
{
    let mut s = String::new();
    let mut i: usize = 0;
    while i < v.len()
        invariant
            i <= v.len(),
            s@ == v@.take(i as int),
        decreases v.len() - i,
    {
        s.push(v[i]);
        i += 1;
    }
    s
}

/// Appends the characters of `tail` to `out`.
pub fn append_chars(out: &mut Vec<char>, tail: &Vec<char>)
    ensures
        final(out)@ == old(out)@ + tail@,
{
    let mut i: usize = 0;
    while i < tail.len()
        invariant
            i <= tail.len(),
            out@ == old(out)@ + tail@.take(i as int),
        decreases tail.len() - i,
    {
        out.push(tail[i]);
        i += 1;
    }
}

/// Whether two character vectors hold the same characters.
pub fn same_chars(a: &Vec<char>, b: &Vec<char>) -> (same: bool)
    ensures
        same == (a@ == b@),
{
    if a.len() != b.len() {
        return false;
    }
    let mut i: usize = 0;
    while i < a.len()
        invariant
            i <= a.len(),
            a.len() == b.len(),
            forall|k: int| 0 <= k < i ==> a@[k] == b@[k],
        decreases a.len() - i,
    {
        if a[i] != b[i] {
            return false;
        }
        i += 1;
    }
    assert(a@ =~= b@);
    true
}

/// Whether two strings hold the same characters.
pub fn same_text(a: &str, b: &str) -> (same: bool)
    ensures
        same == (a@ == b@),
{
    let av = chars_of(a);
    let bv = chars_of(b);
    same_chars(&av, &bv)
}

/// `needle` stands in `hay` at position `at`.
pub open spec fn occurs_at(hay: Seq<char>, at: int, needle: Seq<char>) -> bool {
    &&& 0 <= at
    &&& at + needle.len() <= hay.len()
    &&& hay.subrange(at, at + needle.len()) == needle
}

/// `hay` begins with `prefix`.
pub open spec fn has_prefix(hay: Seq<char>, prefix: Seq<char>) -> bool {
    occurs_at(hay, 0, prefix)
}

/// `hay` ends with `suffix`.
pub open spec fn has_suffix(hay: Seq<char>, suffix: Seq<char>) -> bool {
    occurs_at(hay, hay.len() - suffix.len(), suffix)
}

/// Whether `needle` stands in `hay` at position `at`.
pub fn matches_at(hay: &Vec<char>, at: usize, needle: &Vec<char>) -> (found: bool)
    ensures
        found == occurs_at(hay@, at as int, needle@),
{
    if needle.len() > hay.len() || at > hay.len() - needle.len() {
        return false;
    }
    let mut j: usize = 0;
    while j < needle.len()
        invariant
            j <= needle.len(),
            at + needle.len() <= hay.len(),
            forall|k: int| 0 <= k < j ==> hay@[at + k] == needle@[k],
        decreases needle.len() - j,
    {
        if hay[at + j] != needle[j] {
            assert(hay@.subrange(at as int, at + needle.len())[j as int] == hay@[at + j]);
            return false;
        }
        j += 1;
    }
    assert(hay@.subrange(at as int, at + needle.len()) =~= needle@);
    true
}

/// Whether `hay` begins with `prefix`.
pub fn starts_with(hay: &Vec<char>, prefix: &Vec<char>) -> (found: bool)
    ensures
        found == has_prefix(hay@, prefix@),
{
    matches_at(hay, 0, prefix)
}

/// Whether `hay` ends with `suffix`.
pub fn ends_with(hay: &Vec<char>, suffix: &Vec<char>) -> (found: bool)
    ensures
        found == has_suffix(hay@, suffix@),
{
    if suffix.len() > hay.len() {
        return false;
    }
    matches_at(hay, hay.len() - suffix.len(), suffix)
}

/// The characters of `v` from position `from` up to, not including, `to`.
pub fn slice_chars(v: &Vec<char>, from: usize, to: usize) -> (part: Vec<char>)
    requires
        from <= to <= v.len(),
    ensures
        part@ == v@.subrange(from as int, to as int),
{
    let mut part: Vec<char> = Vec::new();
    let mut i: usize = from;
    while i < to
        invariant
            from <= i <= to,
            to <= v.len(),
            part@ == v@.subrange(from as int, i as int),
        decreases to - i,
    {
        part.push(v[i]);
        assert(v@.subrange(from as int, i as int).push(v@[i as int]) =~= v@.subrange(
            from as int,
            i + 1,
        ));
        i += 1;
    }
    part
}

/// What is left of `hay` from position `from` on, once every occurrence of
/// `needle` has been replaced by `with`. Occurrences are taken from the left
/// and do not overlap; what was put in is not searched again. An empty
/// needle occurs nowhere.
pub open spec fn replace_from(hay: Seq<char>, needle: Seq<char>, with: Seq<char>, from: int) -> Seq<
    char,
>
    decreases hay.len() - from,
{
    if from < 0 || from >= hay.len() {
        Seq::empty()
    } else if needle.len() == 0 {
        hay.subrange(from, hay.len() as int)
    } else if occurs_at(hay, from, needle) {
        with + replace_from(hay, needle, with, from + needle.len())
    } else {
        seq![hay[from]] + replace_from(hay, needle, with, from + 1)
    }
}

/// `hay` with every occurrence of `needle` replaced by `with`.
pub open spec fn replace_all(hay: Seq<char>, needle: Seq<char>, with: Seq<char>) -> Seq<char> {
    replace_from(hay, needle, with, 0)
}

/// `needle` stands nowhere in `hay`.
pub open spec fn absent(hay: Seq<char>, needle: Seq<char>) -> bool {
    forall|at: int| !occurs_at(hay, at, needle)
}

/// Replacing a needle that does not occur changes nothing.
pub proof fn lemma_replace_absent(hay: Seq<char>, needle: Seq<char>, with: Seq<char>, from: int)
    requires
        absent(hay, needle),
        0 <= from <= hay.len(),
    ensures
        replace_from(hay, needle, with, from) == hay.subrange(from, hay.len() as int),
    decreases hay.len() - from,
{
    if from >= hay.len() {
        assert(hay.subrange(from, hay.len() as int) =~= Seq::<char>::empty());
    } else if needle.len() == 0 {
    } else {
        assert(!occurs_at(hay, from, needle));
        lemma_replace_absent(hay, needle, with, from + 1);
        assert(seq![hay[from]] + hay.subrange(from + 1, hay.len() as int) =~= hay.subrange(
            from,
            hay.len() as int,
        ));
    }
}

/// `hay` with every occurrence of `needle` replaced by `with`. An empty
/// needle occurs nowhere.
pub fn replace_chars(hay: &Vec<char>, needle: &Vec<char>, with: &Vec<char>) -> (out: Vec<char>)
    ensures
        out@ == replace_all(hay@, needle@, with@),
{
    if needle.len() == 0 {
        let copy = slice_chars(hay, 0, hay.len());
        assert(replace_all(hay@, needle@, with@) =~= hay@.subrange(0, hay@.len() as int));
        return copy;
    }
    let mut out: Vec<char> = Vec::new();
    let mut i: usize = 0;
    while i < hay.len()
        invariant
            i <= hay.len(),
            needle@.len() > 0,
            out@ + replace_from(hay@, needle@, with@, i as int) == replace_all(
                hay@,
                needle@,
                with@,
            ),
        decreases hay.len() - i,
    {
        let ghost before = out@;
        if matches_at(hay, i, needle) {
            append_chars(&mut out, with);
            proof {
                let rest = replace_from(hay@, needle@, with@, i + needle@.len());
                assert((before + with@) + rest =~= before + (with@ + rest));
            }
            i += needle.len();
        } else {
            out.push(hay[i]);
            proof {
                let rest = replace_from(hay@, needle@, with@, i + 1);
                assert(before.push(hay@[i as int]) + rest =~= before + (seq![hay@[i as int]]
                    + rest));
            }
            i += 1;
        }
    }
    assert(out@ + Seq::<char>::empty() =~= out@);
    out
}

} // verus!
