//! Small operations on the characters of a string.

use vstd::prelude::*;

verus! {

/// The index of the last occurrence of `c` in `text`, or -1 where `c` does
/// not occur.
pub open spec fn last_index_of(text: Seq<char>, c: char) -> int
    decreases text.len(),
{
    if text.len() == 0 {
        -1
    } else if text.last() == c {
        text.len() - 1
    } else {
        last_index_of(text.drop_last(), c)
    }
}

/// `last_index_of` is -1 or an index at which `c` stands, and `c` stands
/// nowhere behind it.
pub proof fn lemma_last_index_of(text: Seq<char>, c: char)
    ensures
        -1 <= last_index_of(text, c) < text.len(),
        last_index_of(text, c) >= 0 ==> text[last_index_of(text, c)] == c,
        forall|j: int| last_index_of(text, c) < j < text.len() ==> text[j] != c,
    decreases text.len(),
{
    if text.len() > 0 && text.last() != c {
        lemma_last_index_of(text.drop_last(), c);
        assert forall|j: int| last_index_of(text, c) < j < text.len() implies text[j] != c by {
            if j < text.len() - 1 {
                assert(text.drop_last()[j] == text[j]);
            }
        }
    }
}

/// An index at which `c` stands, with no `c` behind it, is the last index of
/// `c`; and where `c` stands nowhere, the last index is -1.
pub proof fn lemma_last_index_is(text: Seq<char>, c: char, at: int)
    requires
        -1 <= at < text.len(),
        at >= 0 ==> text[at] == c,
        forall|j: int| at < j < text.len() ==> text[j] != c,
    ensures
        last_index_of(text, c) == at,
{
    lemma_last_index_of(text, c);
}

/// The characters of a string, one by one.
pub(crate) fn characters(text: &str) -> (result: Vec<char>)
    ensures
        result@ == text@,
{
    let mut result: Vec<char> = Vec::new();
    for c in it: text.chars()
        invariant
            it.seq() == text@,
            result@ == it.seq().take(it.index()),
    {
        result.push(c);
    }
    result
}

/// The index of the last `c` among the characters, if there is one.
pub(crate) fn find_last(chars: &Vec<char>, c: char) -> (result: Option<usize>)
    ensures
        match result {
            Some(at) => at < chars.len() && chars@[at as int] == c && last_index_of(chars@, c)
                == at,
            None => last_index_of(chars@, c) == -1,
        },
{
    let mut i: usize = chars.len();
    while i > 0
        invariant
            i <= chars.len(),
            forall|j: int| i <= j < chars.len() ==> chars@[j] != c,
        decreases i,
    {
        if chars[i - 1] == c {
            proof {
                lemma_last_index_is(chars@, c, i - 1);
            }
            return Some(i - 1);
        }
        i -= 1;
    }
    proof {
        lemma_last_index_is(chars@, c, -1);
    }
    None
}

/// Whether two strings hold the same characters.
pub(crate) fn same_text(left: &str, right: &str) -> (same: bool)
    ensures
        same == (left@ == right@),
{
    let a = characters(left);
    let b = characters(right);
    if a.len() != b.len() {
        return false;
    }
    let mut i: usize = 0;
    while i < a.len()
        invariant
            i <= a.len(),
            a.len() == b.len(),
            a@ == left@,
            b@ == right@,
            forall|j: int| 0 <= j < i ==> a@[j] == b@[j],
        decreases a.len() - i,
    {
        if a[i] != b[i] {
            assert(left@[i as int] != right@[i as int]);
            return false;
        }
        i += 1;
    }
    assert(a@ =~= b@);
    true
}

/// The characters of `text` from index `from` up to `to`, as a string of
/// its own.
pub(crate) fn part(text: &str, from: usize, to: usize) -> (result: String)
    requires
        from <= to <= text@.len(),
    ensures
        result@ == text@.subrange(from as int, to as int),
{
    text.substring_char(from, to).to_owned()
}

} // verus!
