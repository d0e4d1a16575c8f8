//! The tokens of a chapter.
//!
//! `pulldown_cmark` reads markup as a stream of events and
//! `pulldown_cmark_to_cmark` writes such a stream back as markup. Of an
//! event the rewrite reads only whether it is text, and it makes only raw
//! markup: a token holds these two kinds of event as strings and every other
//! event as it came.

use vstd::prelude::*;

verus! {

/// An event of `pulldown_cmark`.
#[verifier::external_type_specification]
#[verifier::external_body]
pub struct ExEvent<'a>(pulldown_cmark::Event<'a>);

/// The error of a formatter.
#[verifier::external_type_specification]
#[verifier::external_body]
pub struct ExFmtError(std::fmt::Error);

/// One token of a chapter.
#[derive(Debug, PartialEq)]
pub enum Token<'a> {
    /// A run of text.
    Text(String),
    /// Raw markup, which is written as it stands.
    Html(String),
    /// Any other event: the start or the end of an element, a break and the
    /// like. An event in this variant is carried through unread, whatever
    /// it is: an event of text or of raw markup belongs in `Text` or `Html`,
    /// where the reader of a chapter puts it.
    Other(pulldown_cmark::Event<'a>),
}

/// What a token holds.
pub enum TokenView<'a> {
    Text(Seq<char>),
    Html(Seq<char>),
    Other(pulldown_cmark::Event<'a>),
}

impl<'a> View for Token<'a> {
    type V = TokenView<'a>;

    open spec fn view(&self) -> TokenView<'a> {
        match self {
            Token::Text(text) => TokenView::Text(text@),
            Token::Html(html) => TokenView::Html(html@),
            Token::Other(event) => TokenView::Other(*event),
        }
    }
}

/// What the tokens of a stream hold, in order.
pub open spec fn token_views<'a>(tokens: Seq<Token<'a>>) -> Seq<TokenView<'a>> {
    Seq::new(tokens.len(), |i: int| tokens[i]@)
}

/// The tokens that `pulldown_cmark` reads from the text of a chapter.
pub uninterp spec fn markdown_tokens(content: Seq<char>) -> Seq<TokenView<'static>>;

/// The markup that `pulldown_cmark_to_cmark` writes for a stream of tokens.
pub uninterp spec fn markdown_text(tokens: Seq<TokenView<'static>>) -> Seq<char>;

/// `pulldown_cmark::Parser::new`, run to its end: the events of the text,
/// in order. A text event and an event of raw markup are handed out with
/// their strings, every other event as it is.
#[verifier::external_body]
pub(crate) fn parse_markdown<'a>(content: &'a str) -> (tokens: Vec<Token<'a>>)
    ensures
        token_views(tokens@) == markdown_tokens(content@),
{
    let mut tokens = Vec::new();
    for event in pulldown_cmark::Parser::new(content) {
        tokens.push(
            match event {
                pulldown_cmark::Event::Text(text) => Token::Text(text.into_string()),
                pulldown_cmark::Event::Html(html) => Token::Html(html.into_string()),
                other => Token::Other(other),
            },
        );
    }
    tokens
}

/// `pulldown_cmark_to_cmark::cmark` into a string: the markup of the
/// stream. Each token goes in as the event that it stands for. The call
/// fails only where a write to its formatter fails, and a write to a string
/// does not fail: the result is `Ok`.
#[verifier::external_body]
pub(crate) fn render_markdown<'a>(tokens: &Vec<Token<'a>>) -> (result: Result<
    String,
    std::fmt::Error,
>)
    ensures
        match result {
            Ok(text) => text@ == markdown_text(token_views(tokens@)),
            Err(_) => false,
        },
{
    let mut events = Vec::new();
    for token in tokens.iter() {
        events.push(
            match token {
                Token::Text(text) => pulldown_cmark::Event::Text(text.as_str().into()),
                Token::Html(html) => pulldown_cmark::Event::Html(html.as_str().into()),
                Token::Other(event) => event.clone(),
            },
        );
    }
    let mut text = String::new();
    pulldown_cmark_to_cmark::cmark(events.iter(), &mut text).map(|_| text)
}

} // verus!
