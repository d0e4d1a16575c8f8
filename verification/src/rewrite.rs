//! The rewrite of one chapter, step by step.
//!
//! The rewrite walks the tokens of a chapter from the first to the last. It
//! stops at each directive and names the file that it needs; given the text
//! of that file, it puts the placeholder where the directive stood and goes
//! on. Behind the last token it writes the stream back as markup. Reading
//! the files is the caller's part.

use crate::config::{QuizConfig, QuizConfigView};
use crate::definition::{encoding_of, Encoding};
use crate::directive::{
    directive_argument,
    directive_closing,
    directive_opening,
    is_argument,
    lemma_directive_of_argument,
    match_directive,
};
use crate::error::QuizError;
use crate::path::{
    containing_directory,
    directory_of,
    lemma_resolved_keeps_name,
    quiz_name,
    resolve,
    resolved,
};
use crate::placeholder::{
    attribute_value,
    lemma_quiz_attributes,
    placeholder_markup,
    quiz_attributes,
};
use crate::processor::{quiz_markup, QuizProcessor};
use crate::token::{
    markdown_text,
    markdown_tokens,
    parse_markdown,
    render_markdown,
    token_views,
    Token,
    TokenView,
};
use vstd::pervasive::unreached;
use vstd::prelude::*;

verus! {

/// The argument of the directive that a token is: that of its text, where
/// it is a text token and its text is a directive.
pub open spec fn token_directive(token: TokenView) -> Option<Seq<char>> {
    match token {
        TokenView::Text(text) => directive_argument(text),
        _ => None,
    }
}

/// The index of the first directive at or behind `from`, or the length of
/// the stream where none is left.
pub open spec fn next_directive(tokens: Seq<TokenView>, from: int) -> int
    decreases tokens.len() - from,
{
    if from >= tokens.len() {
        tokens.len() as int
    } else if token_directive(tokens[from]) is Some {
        from
    } else {
        next_directive(tokens, from + 1)
    }
}

/// Whether a stream holds no directive.
pub open spec fn has_no_directive(tokens: Seq<TokenView>) -> bool {
    forall|i: int| 0 <= i < tokens.len() ==> token_directive(#[trigger] tokens[i]) is None
}

/// What the rewrite makes of a token that it has passed: of a directive
/// the placeholder of the quiz at the path that the directive names, with
/// the questions that were given for it; of every other token the token
/// itself.
pub open spec fn rewritten_token(
    token: TokenView,
    config: QuizConfigView,
    directory: Seq<char>,
    questions: Seq<char>,
) -> TokenView {
    match token_directive(token) {
        Some(argument) => TokenView::Html(
            quiz_markup(config, resolved(directory, argument), questions),
        ),
        None => token,
    }
}

/// What the rewrite does next.
#[derive(Debug, PartialEq, Eq)]
pub enum Step {
    /// It stands at a directive with this argument and needs the text of
    /// the file at `path`.
    Load { path: String, argument: String },
    /// It has passed the last token, and this is the chapter as rewritten.
    Done { content: String },
}

/// The rewrite of a chapter: its tokens, of which those before the
/// position are done, and the directory against which the chapter's
/// directives are resolved.
pub struct ChapterRewrite<'a> {
    config: &'a QuizConfig,
    directory: String,
    tokens: Vec<Token<'a>>,
    cursor: usize,
    source: Ghost<Seq<TokenView<'a>>>,
    questions: Ghost<Map<int, Seq<char>>>,
}

impl<'a> ChapterRewrite<'a> {
    /// The tokens of the chapter as they were when the rewrite began.
    pub closed spec fn source(&self) -> Seq<TokenView<'a>> {
        self.source@
    }

    /// The tokens of the chapter as they are.
    pub closed spec fn tokens(&self) -> Seq<TokenView<'a>> {
        token_views(self.tokens@)
    }

    /// The number of tokens that the rewrite has passed.
    pub closed spec fn position(&self) -> int {
        self.cursor as int
    }

    /// The directory of the chapter.
    pub closed spec fn directory(&self) -> Seq<char> {
        self.directory@
    }

    /// The options of the run.
    pub closed spec fn config(&self) -> QuizConfigView {
        self.config@
    }

    /// The questions that the rewrite was given, as JSON, each under the
    /// index of the directive that it was given for.
    pub closed spec fn questions(&self) -> Map<int, Seq<char>> {
        self.questions@
    }

    /// What the token at index `i` has to be: before the position what the
    /// rewrite makes of the token that the chapter began with, and from the
    /// position on that token itself.
    pub open spec fn expected(&self, i: int) -> TokenView<'a> {
        if i < self.position() {
            rewritten_token(
                self.source()[i],
                self.config(),
                self.directory(),
                self.questions()[i],
            )
        } else {
            self.source()[i]
        }
    }

    /// The rewrite has as many tokens as it began with, and each of them is
    /// what it has to be; it has questions for the directives that it has
    /// passed and for nothing else.
    pub open spec fn wf(&self) -> bool {
        &&& 0 <= self.position() <= self.source().len()
        &&& self.tokens().len() == self.source().len()
        &&& forall|i: int|
            0 <= i < self.source().len() ==> #[trigger] self.tokens()[i] == self.expected(i)
        &&& forall|i: int| #[trigger]
            self.questions().contains_key(i) <==> 0 <= i < self.position() && token_directive(
                self.source()[i],
            ) is Some
    }

    /// Whether `self` is a later state of the rewrite `before`: of the same
    /// chapter, with the same options.
    pub open spec fn continues(&self, before: &Self) -> bool {
        &&& self.source() == before.source()
        &&& self.directory() == before.directory()
        &&& self.config() == before.config()
    }

    /// The path of the file that the rewrite waits for: that of the
    /// directive at its position, if a directive stands there.
    pub open spec fn awaited(&self) -> Option<Seq<char>> {
        if self.position() < self.source().len() {
            match token_directive(self.source()[self.position()]) {
                Some(argument) => Some(resolved(self.directory(), argument)),
                None => None,
            }
        } else {
            None
        }
    }

    /// Whether `step` is the step that the rewrite takes at its position:
    /// the file to load where a token is left, which is then a directive,
    /// and else the markup of the tokens.
    pub open spec fn reports_step(&self, step: Step) -> bool {
        if self.position() < self.source().len() {
            step matches Step::Load { path, argument } && token_directive(
                self.source()[self.position()],
            ) == Some(argument@) && path@ == resolved(self.directory(), argument@)
        } else {
            step matches Step::Done { content } && content@ == markdown_text(self.tokens())
        }
    }

    /// Whether `self` is what becomes of `before` when it is given what
    /// came of reading a file, and `result` what is said of it.
    pub open spec fn reports_supply(
        &self,
        before: &Self,
        loaded: Result<String, String>,
        result: Result<(), QuizError>,
    ) -> bool {
        match before.awaited() {
            None => result is Ok && self.stands_as(before),
            Some(path) => match loaded {
                Err(message) => {
                    &&& self.stands_as(before)
                    &&& result matches Err(QuizError::Io { path: named, message: words })
                        && named@ == path && words@ == message@
                },
                Ok(content) => match encoding_of(content@) {
                    Encoding::Json(json) => {
                        &&& result is Ok
                        &&& self.position() == before.position() + 1
                        &&& self.questions() == before.questions().insert(
                            before.position(),
                            json,
                        )
                        &&& self.tokens() == before.tokens().update(
                            before.position(),
                            TokenView::Html(quiz_markup(before.config(), path, json)),
                        )
                    },
                    Encoding::Malformed => {
                        &&& self.stands_as(before)
                        &&& result matches Err(QuizError::Format { path: named, .. }) && named@
                            == path
                    },
                    Encoding::Unwritable => {
                        &&& self.stands_as(before)
                        &&& result matches Err(QuizError::Encode { path: named, .. }) && named@
                            == path
                    },
                },
            },
        }
    }

    /// Whether `self` stands where `other` stands, with the same tokens and
    /// the same questions.
    pub open spec fn stands_as(&self, other: &Self) -> bool {
        &&& self.tokens() == other.tokens()
        &&& self.position() == other.position()
        &&& self.questions() == other.questions()
    }

    /// A rewrite of these tokens, for the chapter at `chapter_path` and
    /// with the options of the run. It stands before the first token. Only
    /// a `Text` token is read as a directive.
    pub fn from_tokens(
        tokens: Vec<Token<'a>>,
        chapter_path: &str,
        config: &'a QuizConfig,
    ) -> (rewrite: Self)
        ensures
            rewrite.wf(),
            rewrite.source() == token_views(tokens@),
            rewrite.tokens() == token_views(tokens@),
            rewrite.position() == 0,
            rewrite.directory() == containing_directory(chapter_path@),
            rewrite.config() == config@,
            rewrite.questions() == Map::<int, Seq<char>>::empty(),
    {
        let ghost source = token_views(tokens@);
        ChapterRewrite {
            config,
            directory: directory_of(chapter_path),
            tokens,
            cursor: 0,
            source: Ghost(source),
            questions: Ghost(Map::empty()),
        }
    }

    /// A rewrite of the chapter at `chapter_path` with this text, with the
    /// options of the run. It stands before the first token.
    pub fn begin(content: &'a str, chapter_path: &str, config: &'a QuizConfig) -> (rewrite: Self)
        ensures
            rewrite.wf(),
            rewrite.source() == markdown_tokens(content@),
            rewrite.tokens() == markdown_tokens(content@),
            rewrite.position() == 0,
            rewrite.directory() == containing_directory(chapter_path@),
            rewrite.config() == config@,
            rewrite.questions() == Map::<int, Seq<char>>::empty(),
    {
        Self::from_tokens(parse_markdown(content), chapter_path, config)
    }

    /// The tokens of the chapter as they are.
    pub fn current_tokens(&self) -> (tokens: &Vec<Token<'a>>)
        ensures
            token_views(tokens@) == self.tokens(),
    {
        &self.tokens
    }

    /// Goes on to the next directive and asks for its file, or, where no
    /// directive is left, passes the last token and writes the chapter. No
    /// token changes. A rewrite that stands at a directive stays there.
    pub fn advance(&mut self) -> (step: Step)
        requires
            old(self).wf(),
        ensures
            final(self).wf(),
            final(self).continues(old(self)),
            final(self).tokens() == old(self).tokens(),
            final(self).questions() == old(self).questions(),
            final(self).position() == next_directive(old(self).source(), old(self).position()),
            final(self).reports_step(step),
    {
        while self.cursor < self.tokens.len()
            invariant
                self.wf(),
                self.continues(old(self)),
                self.tokens() == old(self).tokens(),
                self.questions() == old(self).questions(),
                old(self).position() <= self.position(),
                next_directive(self.source(), self.position()) == next_directive(
                    old(self).source(),
                    old(self).position(),
                ),
            decreases self.tokens.len() - self.cursor,
        {
            assert(self.tokens()[self.cursor as int] == self.source()[self.cursor as int]);
            assert(self.tokens()[self.cursor as int] == self.tokens@[self.cursor as int]@);
            if let Token::Text(text) = &self.tokens[self.cursor] {
                if let Some(argument) = match_directive(text.as_str()) {
                    let path = resolve(self.directory.as_str(), argument.as_str());
                    return Step::Load { path, argument };
                }
            }
            self.cursor += 1;
        }
        match render_markdown(&self.tokens) {
            Ok(content) => Step::Done { content },
            Err(_) => unreached(),
        }
    }

    /// Takes what came of reading the file that the rewrite waits for: the
    /// text of the file, or the words of the failure. With the text of a
    /// definition the placeholder of the quiz takes the place of the
    /// directive and the rewrite passes it. A failure to read, and a text
    /// that holds no definition, is an error, and the rewrite stays as it
    /// is. Where the rewrite waits for no file, nothing happens.
    pub fn supply(&mut self, loaded: Result<String, String>) -> (result: Result<(), QuizError>)
        requires
            old(self).wf(),
        ensures
            final(self).wf(),
            final(self).continues(old(self)),
            final(self).reports_supply(old(self), loaded, result),
    {
        if self.cursor >= self.tokens.len() {
            return Ok(());
        }
        assert(self.tokens()[self.cursor as int] == self.source()[self.cursor as int]);
        assert(self.tokens()[self.cursor as int] == self.tokens@[self.cursor as int]@);
        let argument = match &self.tokens[self.cursor] {
            Token::Text(text) => match match_directive(text.as_str()) {
                Some(argument) => argument,
                None => {
                    return Ok(());
                },
            },
            _ => {
                return Ok(());
            },
        };
        let path = resolve(self.directory.as_str(), argument.as_str());
        let content = match loaded {
            Ok(content) => content,
            Err(message) => {
                return Err(QuizError::Io { path, message });
            },
        };
        let markup = match QuizProcessor::new().process_quiz(
            self.config,
            path.as_str(),
            content.as_str(),
        ) {
            Ok(markup) => markup,
            Err(error) => {
                return Err(error);
            },
        };
        let ghost json = encoding_of(content@)->Json_0;
        self.tokens.set(self.cursor, Token::Html(markup));
        self.cursor += 1;
        proof {
            self.questions@ = self.questions@.insert(old(self).position(), json);
            assert(self.tokens() =~= old(self).tokens().update(
                old(self).position(),
                TokenView::Html(quiz_markup(self.config(), path@, json)),
            ));
        }
        Ok(())
    }
}

/// Behind a position at or before which no directive is left, the next
/// directive is the first one at or behind the position.
proof fn lemma_next_directive_skips(tokens: Seq<TokenView>, from: int, to: int)
    requires
        0 <= from <= to <= tokens.len(),
        forall|i: int| from <= i < to ==> token_directive(#[trigger] tokens[i]) is None,
    ensures
        next_directive(tokens, from) == next_directive(tokens, to),
    decreases to - from,
{
    if from < to {
        lemma_next_directive_skips(tokens, from + 1, to);
    }
}

/// A token that is no directive is never changed: at every step of a
/// rewrite it is the token that the chapter began with, at its place.
pub proof fn lemma_other_tokens_stay(rewrite: ChapterRewrite, i: int)
    requires
        rewrite.wf(),
        0 <= i < rewrite.source().len(),
        token_directive(rewrite.source()[i]) is None,
    ensures
        rewrite.tokens()[i] == rewrite.source()[i],
{
    assert(rewrite.tokens()[i] == rewrite.expected(i));
}

/// A directive that the rewrite has passed has become the placeholder of
/// its quiz. Where the token was the text `{{#quiz <argument>}}`, it is now
/// raw markup: the placeholder whose `quiz-name` is the name of the file
/// that the argument gives, without its directories and its extension, and
/// whose `quiz-questions` are the questions that were given for it.
pub proof fn lemma_directive_becomes_placeholder(
    rewrite: ChapterRewrite,
    i: int,
    argument: Seq<char>,
)
    requires
        rewrite.wf(),
        0 <= i < rewrite.position(),
        is_argument(argument),
        rewrite.source()[i] == TokenView::<'_>::Text(
            directive_opening() + argument + directive_closing(),
        ),
    ensures
        ({
            let attributes = quiz_attributes(
                quiz_name(argument),
                rewrite.questions()[i],
                rewrite.config(),
            );
            &&& rewrite.questions().contains_key(i)
            &&& rewrite.tokens()[i] == TokenView::<'_>::Html(placeholder_markup(attributes))
            &&& attribute_value(attributes, "quiz-name"@) == Some(quiz_name(argument))
            &&& attribute_value(attributes, "quiz-questions"@) == Some(rewrite.questions()[i])
        }),
{
    lemma_directive_of_argument(argument);
    assert(rewrite.tokens()[i] == rewrite.expected(i));
    lemma_resolved_keeps_name(rewrite.directory(), argument);
    lemma_quiz_attributes(quiz_name(argument), rewrite.questions()[i], rewrite.config());
}

/// A token that the rewrite has not passed is the token that the chapter
/// began with, directive or not: tokens are rewritten in order.
pub proof fn lemma_tokens_ahead_stay(rewrite: ChapterRewrite, i: int)
    requires
        rewrite.wf(),
        rewrite.position() <= i < rewrite.source().len(),
    ensures
        rewrite.tokens()[i] == rewrite.source()[i],
{
    assert(rewrite.tokens()[i] == rewrite.expected(i));
}

/// In a chapter without a directive the rewrite changes nothing and asks
/// for no file: at every step its tokens are those that the chapter began
/// with, and the next step passes the last token.
pub proof fn lemma_without_directive_unchanged(rewrite: ChapterRewrite)
    requires
        rewrite.wf(),
        has_no_directive(rewrite.source()),
    ensures
        rewrite.tokens() == rewrite.source(),
        rewrite.awaited() is None,
        next_directive(rewrite.source(), rewrite.position()) == rewrite.source().len(),
{
    assert forall|i: int| 0 <= i < rewrite.source().len() implies rewrite.tokens()[i]
        == rewrite.source()[i] by {
        assert(rewrite.tokens()[i] == rewrite.expected(i));
    }
    assert(rewrite.tokens() =~= rewrite.source());
    lemma_next_directive_skips(
        rewrite.source(),
        rewrite.position(),
        rewrite.source().len() as int,
    );
}

/// A chapter without a directive is written as it was read: the step that
/// passes its last token gives the markup of the very tokens that the
/// chapter began with.
pub proof fn lemma_without_directive_written_as_read(rewrite: ChapterRewrite, step: Step)
    requires
        rewrite.wf(),
        has_no_directive(rewrite.source()),
        rewrite.position() == rewrite.source().len(),
        rewrite.reports_step(step),
    ensures
        step matches Step::Done { content } && content@ == markdown_text(rewrite.source()),
{
    lemma_without_directive_unchanged(rewrite);
}

} // verus!
