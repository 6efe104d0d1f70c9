//! Dotted addresses: `a.b.c` names a participant, and its parts are what
//! stands between the dots.

use vstd::prelude::*;
use vstd::string::StrSliceExecFns;

verus! {

/// The parts of a dotted string: what stands before the first dot, between
/// each two neighbouring dots and after the last one. A string without a dot
/// is its own single part, and so is the empty string.
pub open spec fn parts(s: Seq<char>) -> Seq<Seq<char>>
    decreases s.len(),
{
    if s.len() == 0 {
        seq![Seq::<char>::empty()]
    } else {
        let before = parts(s.drop_last());
        if s.last() == '.' {
            before.push(Seq::<char>::empty())
        } else {
            before.update(before.len() - 1, before.last().push(s.last()))
        }
    }
}

/// A string has at least one part.
pub proof fn lemma_parts_nonempty(s: Seq<char>)
    ensures
        parts(s).len() >= 1,
        parts(s).len() <= s.len() + 1,
    decreases s.len(),
{
    if s.len() > 0 {
        lemma_parts_nonempty(s.drop_last());
    }
}

/// Reading one more character either opens a new part or extends the last.
proof fn lemma_parts_step(s: Seq<char>, j: int)
    requires
        0 <= j < s.len(),
    ensures
        parts(s.take(j)).len() >= 1,
        s[j] == '.' ==> parts(s.take(j + 1)) == parts(s.take(j)).push(Seq::<char>::empty()),
        s[j] != '.' ==> parts(s.take(j + 1)) == parts(s.take(j)).update(
            parts(s.take(j)).len() - 1,
            parts(s.take(j)).last().push(s[j]),
        ),
{
    lemma_parts_nonempty(s.take(j));
    assert(s.take(j + 1).drop_last() == s.take(j));
}

/// All parts of a prefix but its last are parts of the whole string.
proof fn lemma_parts_prefix(s: Seq<char>, j: int)
    requires
        0 <= j <= s.len(),
    ensures
        1 <= parts(s.take(j)).len() <= parts(s).len(),
        forall|k: int|
            0 <= k < parts(s.take(j)).len() - 1 ==> parts(s)[k] == #[trigger] parts(s.take(j))[k],
    decreases s.len() - j,
{
    lemma_parts_nonempty(s.take(j));
    if j < s.len() {
        lemma_parts_step(s, j);
        lemma_parts_prefix(s, j + 1);
        assert forall|k: int| 0 <= k < parts(s.take(j)).len() - 1 implies parts(s)[k]
            == #[trigger] parts(s.take(j))[k] by {
            assert(parts(s.take(j + 1))[k] == parts(s.take(j))[k]);
        }
    } else {
        assert(s.take(j) == s);
    }
}

/// `str`'s `==`: whether two strings hold the same characters.
pub assume_specification[ <str as PartialEq>::eq ](a: &str, b: &str) -> (r: bool)
    ensures
        r == (a@ == b@),
;

/// The message for an index that is no index of a part.
pub open spec fn index_out_of_range() -> Seq<char> {
    "index equals or superior to parts length"@
}

/// The message for an address of fewer than two parts.
pub open spec fn too_few_parts() -> Seq<char> {
    "parts length is less than 2"@
}

/// The part of `s` at `index`, or the message that `s` has no such part.
pub open spec fn part_at(s: Seq<char>, index: usize) -> Result<Seq<char>, Seq<char>> {
    if index < parts(s).len() {
        Ok(parts(s)[index as int])
    } else {
        Err(index_out_of_range())
    }
}

/// The part of `s` before its last one, or the message that `s` has fewer
/// than two parts.
pub open spec fn part_before_last(s: Seq<char>) -> Result<Seq<char>, Seq<char>> {
    if parts(s).len() >= 2 {
        Ok(parts(s)[parts(s).len() - 2])
    } else {
        Err(too_few_parts())
    }
}

/// The model of a part or of the message in its place.
pub open spec fn part_view(r: Result<&str, String>) -> Result<Seq<char>, Seq<char>> {
    match r {
        Ok(part) => Ok(part@),
        Err(message) => Err(message@),
    }
}

/// The model of a comparison or of the message in its place.
pub open spec fn match_view(r: Result<bool, String>) -> Result<bool, Seq<char>> {
    match r {
        Ok(same) => Ok(same),
        Err(message) => Err(message@),
    }
}

/// Whether the part of `s` at `index` is `value`, or the message that `s`
/// has no such part.
pub open spec fn part_matches(s: Seq<char>, index: usize, value: Seq<char>) -> Result<
    bool,
    Seq<char>,
> {
    match part_at(s, index) {
        Ok(part) => Ok(part == value),
        Err(message) => Err(message),
    }
}

/// The number of dots in a string: one less than the number of its parts.
pub fn dots(s: &str) -> (n: usize)
    ensures
        n + 1 == parts(s@).len(),
{
    let total = s.unicode_len();
    let mut n: usize = 0;
    for c in it: s.chars()
        invariant
            total == s@.len(),
            it.seq() == s@,
            n <= it.index() <= total,
            n + 1 == parts(s@.take(it.index() as int)).len(),
    {
        proof {
            lemma_parts_step(s@, it.index() as int);
        }
        if c == '.' {
            n = n + 1;
        }
    }
    proof {
        assert(s@.take(total as int) == s@);
    }
    n
}

/// The part of `s` at `index`, counted from zero, or `None` where `s` has no
/// such part.
pub fn part(s: &str, index: usize) -> (r: Option<&str>)
    ensures
        r is Some <==> index < parts(s@).len(),
        r is Some ==> r->0@ == parts(s@)[index as int],
{
    let total = s.unicode_len();
    let mut seen: usize = 0;
    let mut start: usize = 0;
    let mut pos: usize = 0;
    for c in it: s.chars()
        invariant
            total == s@.len(),
            it.seq() == s@,
            pos == it.index(),
            start <= pos <= total,
            seen <= index,
            seen <= pos,
            seen + 1 == parts(s@.take(pos as int)).len(),
            parts(s@.take(pos as int)).last() == s@.subrange(start as int, pos as int),
    {
        proof {
            lemma_parts_step(s@, pos as int);
        }
        if c == '.' {
            if seen == index {
                proof {
                    lemma_parts_prefix(s@, pos + 1);
                    assert(parts(s@.take(pos + 1))[index as int] == parts(s@.take(pos as int))[index as int]);
                }
                return Some(s.substring_char(start, pos));
            }
            seen = seen + 1;
            start = pos + 1;
        }
        pos = pos + 1;
    }
    proof {
        assert(s@.take(total as int) == s@);
    }
    if seen == index {
        Some(s.substring_char(start, total))
    } else {
        None
    }
}

/// The part of `s` at `index`, counted from zero, or the message that `s`
/// has no such part.
pub fn get_part(s: &str, index: usize) -> (r: Result<&str, String>)
    ensures
        part_view(r) == part_at(s@, index),
{
    match part(s, index) {
        Some(found) => Ok(found),
        None => Err("index equals or superior to parts length".to_owned()),
    }
}

/// Whether the part of `s` at `index`, counted from zero, is `value`, or the
/// message that `s` has no such part.
pub fn match_part(s: &str, index: usize, value: &str) -> (r: Result<bool, String>)
    ensures
        match_view(r) == part_matches(s@, index, value@),
{
    match part(s, index) {
        Some(found) => Ok(found.eq(value)),
        None => Err("index equals or superior to parts length".to_owned()),
    }
}

/// The part of `s` before its last one, or the message that `s` has fewer
/// than two parts.
pub fn get_part_before_last(s: &str) -> (r: Result<&str, String>)
    ensures
        part_view(r) == part_before_last(s@),
{
    let n = dots(s);
    if n < 1 {
        return Err("parts length is less than 2".to_owned());
    }
    match part(s, n - 1) {
        Some(found) => Ok(found),
        None => Err("parts length is less than 2".to_owned()),
    }
}

/// The parts of a list, written one after the other with a dot between each
/// two neighbours.
pub open spec fn joined(list: Seq<Seq<char>>) -> Seq<char>
    decreases list.len(),
{
    if list.len() == 0 {
        Seq::empty()
    } else if list.len() == 1 {
        list[0]
    } else {
        joined(list.drop_last()) + seq!['.'] + list.last()
    }
}

/// The parts of a string are what its dots split it into: no part holds a
/// dot, and the parts with a dot between each two neighbours are the string.
pub proof fn lemma_parts_split(s: Seq<char>)
    ensures
        parts(s).len() >= 1,
        joined(parts(s)) == s,
        forall|i: int, j: int|
            0 <= i < parts(s).len() && 0 <= j < parts(s)[i].len() ==> parts(s)[i][j] != '.',
    decreases s.len(),
{
    if s.len() > 0 {
        let rest = s.drop_last();
        let before = parts(rest);
        lemma_parts_split(rest);
        assert(s == rest.push(s.last()));
        if s.last() == '.' {
            assert(parts(s).drop_last() == before);
        } else if before.len() > 1 {
            assert(parts(s).drop_last() == before.drop_last());
        }
    }
}

} // verus!
