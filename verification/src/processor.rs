//! The preprocessor: its name, the renderers that it runs for, the
//! placeholder that it makes of one quiz, and the rewrite of a chapter that
//! it begins.

pub use crate::config::QuizConfig;
use crate::config::QuizConfigView;
use crate::definition::{encode_definition, encoding_of, Encoding};
use crate::error::QuizError;
use crate::path::{containing_directory, name_of_quiz, quiz_name};
use crate::placeholder::{placeholder_markup, quiz_attributes, Placeholder};
use crate::rewrite::ChapterRewrite;
use crate::text::same_text;
use crate::token::markdown_tokens;
use vstd::prelude::*;

verus! {

/// The markup of the placeholder of the quiz at `path`, whose definition is
/// `json`.
pub open spec fn quiz_markup(config: QuizConfigView, path: Seq<char>, json: Seq<char>) -> Seq<
    char,
> {
    placeholder_markup(quiz_attributes(quiz_name(path), json, config))
}

/// Whether `result` is what the text of a definition file leads to: the
/// markup of the placeholder where the text has an encoding, or else the
/// error of its kind, which names the path.
pub open spec fn reports_quiz(
    result: Result<String, QuizError>,
    config: QuizConfigView,
    path: Seq<char>,
    encoding: Encoding,
) -> bool {
    match encoding {
        Encoding::Json(json) => result matches Ok(markup) && markup@ == quiz_markup(
            config,
            path,
            json,
        ),
        Encoding::Malformed => result matches Err(QuizError::Format { path: named, .. })
            && named@ == path,
        Encoding::Unwritable => result matches Err(QuizError::Encode { path: named, .. })
            && named@ == path,
    }
}

/// The markup of the placeholder of the quiz at `quiz_path`, whose
/// definition is written as `questions`.
pub fn build_placeholder(config: &QuizConfig, quiz_path: &str, questions: &str) -> (markup: String)
    ensures
        markup@ == quiz_markup(config@, quiz_path@, questions@),
{
    let name = name_of_quiz(quiz_path);
    Placeholder::for_quiz(name.as_str(), questions, config).to_markup()
}

/// The preprocessor that expands quiz directives.
pub struct QuizProcessor;

impl QuizProcessor {
    /// The preprocessor. It holds nothing: the options of a run are handed
    /// to the functions that need them.
    pub fn new() -> (processor: Self)
        ensures
            processor == QuizProcessor,
    {
        QuizProcessor
    }

    /// The name under which the book's settings know this preprocessor.
    pub fn name(&self) -> (name: &'static str)
        ensures
            name@ == "quiz"@,
    {
        "quiz"
    }

    /// Whether the preprocessor runs for a renderer: for every one but the
    /// renderer named `not-supported`.
    pub fn supports_renderer(&self, renderer: &str) -> (supported: bool)
        ensures
            supported == (renderer@ != "not-supported"@),
    {
        !same_text(renderer, "not-supported")
    }

    /// The placeholder for the quiz at `quiz_path`, from the text of its
    /// definition file: the markup that carries the name of the quiz and its
    /// definition as JSON, with the attributes that the options ask for. A
    /// text that holds no definition is an error that names the path.
    pub fn process_quiz(
        &self,
        config: &QuizConfig,
        quiz_path: &str,
        content_toml: &str,
    ) -> (result: Result<String, QuizError>)
        ensures
            reports_quiz(result, config@, quiz_path@, encoding_of(content_toml@)),
    {
        match encode_definition(quiz_path, content_toml) {
            Ok(questions) => Ok(build_placeholder(config, quiz_path, questions.as_str())),
            Err(error) => Err(error),
        }
    }

    /// Begins the rewrite of the chapter at `chapter_path` with the text
    /// `content`. The rewrite stands before the first token of the chapter;
    /// `advance` and `supply` take it through the chapter's directives.
    pub fn process_chapter<'a>(
        &self,
        config: &'a QuizConfig,
        chapter_path: &str,
        content: &'a str,
    ) -> (rewrite: ChapterRewrite<'a>)
        ensures
            rewrite.wf(),
            rewrite.source() == markdown_tokens(content@),
            rewrite.tokens() == markdown_tokens(content@),
            rewrite.position() == 0,
            rewrite.directory() == containing_directory(chapter_path@),
            rewrite.config() == config@,
            rewrite.questions() == Map::<int, Seq<char>>::empty(),
    {
        ChapterRewrite::begin(content, chapter_path, config)
    }
}

} // verus!
