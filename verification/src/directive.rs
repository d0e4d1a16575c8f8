//! Recognising a quiz directive in a text token.

use crate::text::{characters, part};
use vstd::prelude::*;

verus! {

/// The characters that open a directive: `{{#quiz ` with its one space.
pub open spec fn directive_opening() -> Seq<char> {
    seq!['{', '{', '#', 'q', 'u', 'i', 'z', ' ']
}

/// The characters that close a directive: `}}`.
pub open spec fn directive_closing() -> Seq<char> {
    seq!['}', '}']
}

/// An argument is a non-empty run of characters without a closing brace.
pub open spec fn is_argument(argument: Seq<char>) -> bool {
    argument.len() > 0 && forall|i: int| 0 <= i < argument.len() ==> argument[i] != '}'
}

/// `text` is the directive with this argument: the opening, the argument and
/// the closing, and nothing before, between or after them.
pub open spec fn is_directive(text: Seq<char>, argument: Seq<char>) -> bool {
    is_argument(argument) && text == directive_opening() + argument + directive_closing()
}

/// The argument of the directive that `text` is, or `None` where `text` is
/// no directive.
pub open spec fn directive_argument(text: Seq<char>) -> Option<Seq<char>> {
    let argument = text.subrange(8, text.len() - 2);
    if text.len() >= 11 && is_directive(text, argument) {
        Some(argument)
    } else {
        None
    }
}

/// A text is the directive of at most one argument, and `directive_argument`
/// finds it.
pub proof fn lemma_directive_argument_unique(text: Seq<char>, argument: Seq<char>)
    requires
        is_directive(text, argument),
    ensures
        directive_argument(text) == Some(argument),
{
    assert(text.subrange(8, text.len() - 2) =~= argument);
}

/// The text of a directive is put together from its argument and read back.
pub proof fn lemma_directive_of_argument(argument: Seq<char>)
    requires
        is_argument(argument),
    ensures
        directive_argument(directive_opening() + argument + directive_closing()) == Some(argument),
{
    lemma_directive_argument_unique(
        directive_opening() + argument + directive_closing(),
        argument,
    );
}

/// Whether the first eight characters are the opening of a directive.
fn starts_with_opening(chars: &Vec<char>) -> (result: bool)
    requires
        chars.len() >= 8,
    ensures
        result == (chars@.subrange(0, 8) == directive_opening()),
{
    let result = chars[0] == '{' && chars[1] == '{' && chars[2] == '#' && chars[3] == 'q'
        && chars[4] == 'u' && chars[5] == 'i' && chars[6] == 'z' && chars[7] == ' ';
    proof {
        let head = chars@.subrange(0, 8);
        if result {
            assert(head =~= directive_opening());
        } else {
            assert(head[0] == chars[0] && head[1] == chars[1] && head[2] == chars[2] && head[3]
                == chars[3] && head[4] == chars[4] && head[5] == chars[5] && head[6] == chars[6]
                && head[7] == chars[7]);
        }
    }
    result
}

/// Reads a text token as a directive. Returns the argument where the whole
/// token is `{{#quiz <argument>}}`, with a non-empty argument that holds no
/// `}`; returns `None` for every other text.
pub fn match_directive(text: &str) -> (result: Option<String>)
    ensures
        match result {
            Some(argument) => directive_argument(text@) == Some(argument@),
            None => directive_argument(text@) is None,
        },
{
    let chars = characters(text);
    let n = chars.len();
    if n < 11 {
        return None;
    }
    let ghost argument = text@.subrange(8, n - 2);
    proof {
        let whole = directive_opening() + argument + directive_closing();
        if text@ == whole {
            assert(text@.subrange(0, 8) =~= directive_opening());
            assert(text@[n - 2] == whole[n - 2] && text@[n - 1] == whole[n - 1]);
        }
    }
    if !starts_with_opening(&chars) {
        return None;
    }
    if chars[n - 2] != '}' || chars[n - 1] != '}' {
        return None;
    }
    let mut i: usize = 8;
    while i < n - 2
        invariant
            8 <= i <= n - 2,
            n == chars.len(),
            chars@ == text@,
            argument == text@.subrange(8, n - 2),
            forall|j: int| 0 <= j < i - 8 ==> argument[j] != '}',
        decreases n - i,
    {
        if chars[i] == '}' {
            assert(argument[i - 8] == '}');
            return None;
        }
        i += 1;
    }
    assert(text@ =~= directive_opening() + argument + directive_closing()) by {
        assert(text@.subrange(0, 8) == directive_opening());
        assert forall|j: int| 0 <= j < 8 implies text@[j] == directive_opening()[j] by {
            assert(text@.subrange(0, 8)[j] == text@[j]);
        }
    }
    Some(part(text, 8, n - 2))
}

} // verus!
