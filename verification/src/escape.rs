//! Escaping of attribute values for a double-quoted attribute.

use vstd::prelude::*;

verus! {

/// What one character becomes inside a double-quoted attribute: `&`, `<`,
/// `>` and `"` become their entities, every other character stays.
pub open spec fn escaped_char(c: char) -> Seq<char> {
    if c == '&' {
        seq!['&', 'a', 'm', 'p', ';']
    } else if c == '<' {
        seq!['&', 'l', 't', ';']
    } else if c == '>' {
        seq!['&', 'g', 't', ';']
    } else if c == '"' {
        seq!['&', 'q', 'u', 'o', 't', ';']
    } else {
        seq![c]
    }
}

/// A text with each of its characters escaped, in order.
pub open spec fn escaped(text: Seq<char>) -> Seq<char>
    decreases text.len(),
{
    if text.len() == 0 {
        Seq::empty()
    } else {
        escaped_char(text[0]) + escaped(text.drop_first())
    }
}

/// Whether `text` begins with `prefix`.
pub open spec fn begins_with(text: Seq<char>, prefix: Seq<char>) -> bool {
    prefix.len() <= text.len() && text.subrange(0, prefix.len() as int) == prefix
}

/// The reading of an escaped text: each of the four entities stands for its
/// character, every other character for itself.
pub open spec fn unescaped(text: Seq<char>) -> Seq<char>
    decreases text.len(),
{
    if text.len() == 0 {
        Seq::empty()
    } else if begins_with(text, escaped_char('&')) {
        seq!['&'] + unescaped(text.subrange(5, text.len() as int))
    } else if begins_with(text, escaped_char('<')) {
        seq!['<'] + unescaped(text.subrange(4, text.len() as int))
    } else if begins_with(text, escaped_char('>')) {
        seq!['>'] + unescaped(text.subrange(4, text.len() as int))
    } else if begins_with(text, escaped_char('"')) {
        seq!['"'] + unescaped(text.subrange(6, text.len() as int))
    } else {
        seq![text[0]] + unescaped(text.drop_first())
    }
}

/// A character that neither ends a double-quoted attribute nor opens or
/// closes a tag.
pub open spec fn is_plain(c: char) -> bool {
    c != '"' && c != '<' && c != '>'
}

/// An escaped text holds no `"`, no `<` and no `>`: it cannot end the
/// attribute that it stands in, nor open or close a tag.
pub proof fn lemma_escaped_is_plain(text: Seq<char>)
    ensures
        forall|i: int| 0 <= i < escaped(text).len() ==> is_plain(#[trigger] escaped(text)[i]),
    decreases text.len(),
{
    if text.len() > 0 {
        let head = escaped_char(text[0]);
        let tail = escaped(text.drop_first());
        lemma_escaped_is_plain(text.drop_first());
        assert forall|i: int| 0 <= i < escaped(text).len() implies is_plain(
            #[trigger] escaped(text)[i],
        ) by {
            if i < head.len() {
                assert(escaped(text)[i] == head[i]);
            } else {
                assert(escaped(text)[i] == tail[i - head.len()]);
            }
        }
    }
}

/// A text that differs from a prefix at one place does not begin with it.
proof fn lemma_differs(text: Seq<char>, prefix: Seq<char>, at: int)
    requires
        0 <= at < prefix.len(),
        at < text.len() ==> text[at] != prefix[at],
    ensures
        !begins_with(text, prefix),
{
    if begins_with(text, prefix) {
        assert(text.subrange(0, prefix.len() as int)[at] == text[at]);
    }
}

/// Reading an escaped text gives the text back, whatever it holds.
pub proof fn lemma_unescaped_escaped(text: Seq<char>)
    ensures
        unescaped(escaped(text)) == text,
    decreases text.len(),
{
    if text.len() > 0 {
        let c = text[0];
        let rest = escaped(text.drop_first());
        let whole = escaped_char(c) + rest;
        lemma_unescaped_escaped(text.drop_first());
        assert(whole.subrange(escaped_char(c).len() as int, whole.len() as int) =~= rest);
        assert(whole.subrange(0, escaped_char(c).len() as int) =~= escaped_char(c));
        // The entities share their first character and differ in the second.
        let at: int = if c == '&' || c == '<' || c == '>' || c == '"' {
            1
        } else {
            0
        };
        if c != '&' {
            lemma_differs(whole, escaped_char('&'), at);
        }
        if c != '&' && c != '<' {
            lemma_differs(whole, escaped_char('<'), at);
        }
        if c != '&' && c != '<' && c != '>' {
            lemma_differs(whole, escaped_char('>'), at);
        }
        if at == 0 {
            lemma_differs(whole, escaped_char('"'), at);
            assert(whole.drop_first() =~= rest);
        }
        assert(unescaped(whole) =~= text);
    } else {
        assert(text =~= Seq::empty());
    }
}

/// `html_escape::encode_double_quoted_attribute`: the text with `&`, `<`,
/// `>` and `"` replaced by `&amp;`, `&lt;`, `&gt;` and `&quot;`, and every
/// other character kept.
#[verifier::external_body]
pub(crate) fn encode_double_quoted(value: &str) -> (result: String)
    ensures
        result@ == escaped(value@),
{
    html_escape::encode_double_quoted_attribute(value).into_owned()
}

/// Escapes a value for a double-quoted attribute.
pub fn escape_attribute(value: &str) -> (result: String)
    ensures
        result@ == escaped(value@),
        unescaped(result@) == value@,
        forall|i: int| 0 <= i < result@.len() ==> is_plain(#[trigger] result@[i]),
{
    proof {
        lemma_escaped_is_plain(value@);
        lemma_unescaped_escaped(value@);
    }
    encode_double_quoted(value)
}

} // verus!
