use mdbook_quiz::{ChapterRewrite, QuizConfig, QuizError, QuizProcessor, Step, Token};
use pulldown_cmark::{Event, Tag};

const CAPITALS: &str =
    "name = \"Capitals\"\nquestions = [{ prompt = \"Capital of France?\", answer = \"Paris\" }]\n";

const CAPITALS_PLACEHOLDER: &str = "<div class=\"quiz-placeholder\" data-quiz-name=\"geo\"  data-quiz-questions=\"{&quot;name&quot;:&quot;Capitals&quot;,&quot;questions&quot;:[{&quot;answer&quot;:&quot;Paris&quot;,&quot;prompt&quot;:&quot;Capital of France?&quot;}]}\"  data-quiz-fullscreen=\"\" ></div>";

fn text(words: &str) -> Token<'static> {
    Token::Text(words.to_owned())
}

fn load(path: &str, argument: &str) -> Step {
    Step::Load { path: path.to_owned(), argument: argument.to_owned() }
}

fn done(content: &str) -> Step {
    Step::Done { content: content.to_owned() }
}

#[test]
fn chapter_with_one_quiz() {
    let config = QuizConfig::new(None, Some(true));
    let mut rewrite = ChapterRewrite::begin("# Capitals\n\n{{#quiz geo.toml}}\n", "book/ch1.md", &config);
    assert_eq!(rewrite.advance(), load("book/geo.toml", "geo.toml"));
    assert_eq!(rewrite.supply(Ok(CAPITALS.to_owned())), Ok(()));
    let expected = format!("# Capitals\n\n{}", CAPITALS_PLACEHOLDER);
    assert_eq!(rewrite.advance(), done(&expected));
}

#[test]
fn missing_file_is_an_io_error() {
    let config = QuizConfig::new(None, None);
    let mut rewrite = ChapterRewrite::begin("{{#quiz missing.toml}}\n", "book/ch1.md", &config);
    assert_eq!(rewrite.advance(), load("book/missing.toml", "missing.toml"));
    let before = format!("{:?}", rewrite.current_tokens());
    assert_eq!(
        rewrite.supply(Err("No such file or directory (os error 2)".to_owned())),
        Err(QuizError::Io {
            path: "book/missing.toml".to_owned(),
            message: "No such file or directory (os error 2)".to_owned(),
        })
    );
    assert_eq!(format!("{:?}", rewrite.current_tokens()), before);
    assert_eq!(rewrite.advance(), load("book/missing.toml", "missing.toml"));
}

#[test]
fn malformed_file_is_a_format_error() {
    let config = QuizConfig::new(None, None);
    let mut rewrite = ChapterRewrite::begin("{{#quiz bad.toml}}", "ch1.md", &config);
    assert_eq!(rewrite.advance(), load("bad.toml", "bad.toml"));
    match rewrite.supply(Ok("name = ".to_owned())) {
        Err(QuizError::Format { path, .. }) => assert_eq!(path, "bad.toml"),
        other => panic!("{:?}", other),
    }
    assert_eq!(rewrite.current_tokens()[1], text("{{#quiz bad.toml}}"));
    assert_eq!(rewrite.advance(), load("bad.toml", "bad.toml"));
}

#[test]
fn tokens_that_are_no_directive_stay() {
    let config = QuizConfig::new(None, None);
    let tokens = vec![
        Token::Other(Event::Start(Tag::Paragraph)),
        text("before"),
        Token::Other(Event::SoftBreak),
        text("{{#quiz a.toml}}"),
        Token::Other(Event::SoftBreak),
        text("see {{#quiz a.toml}}"),
        Token::Html("<b>".to_owned()),
        Token::Other(Event::Code("{{#quiz a.toml}}".into())),
        Token::Other(Event::End(Tag::Paragraph)),
    ];
    let mut rewrite = ChapterRewrite::from_tokens(tokens, "ch.md", &config);
    assert_eq!(rewrite.advance(), load("a.toml", "a.toml"));
    assert_eq!(rewrite.supply(Ok("x = 1".to_owned())), Ok(()));
    assert!(matches!(rewrite.advance(), Step::Done { .. }));
    let expected = vec![
        Token::Other(Event::Start(Tag::Paragraph)),
        text("before"),
        Token::Other(Event::SoftBreak),
        Token::Html(
            "<div class=\"quiz-placeholder\" data-quiz-name=\"a\"  data-quiz-questions=\"{&quot;x&quot;:1}\" ></div>"
                .to_owned(),
        ),
        Token::Other(Event::SoftBreak),
        text("see {{#quiz a.toml}}"),
        Token::Html("<b>".to_owned()),
        Token::Other(Event::Code("{{#quiz a.toml}}".into())),
        Token::Other(Event::End(Tag::Paragraph)),
    ];
    assert_eq!(rewrite.current_tokens(), &expected);
}

#[test]
fn chapter_without_directive_is_written_as_it_was_read() {
    let config = QuizConfig::new(None, None);
    let content = "# Title\n\nSome *emphasis* and `code`.\n\n* one\n* two\n\n<p>raw</p>\n";
    let mut rewrite = ChapterRewrite::begin(content, "book/ch1.md", &config);
    let first = match rewrite.advance() {
        Step::Done { content } => content,
        other => panic!("{:?}", other),
    };
    assert_eq!(first, "# Title\n\nSome *emphasis* and `code`.\n\n* one\n* two\n\n<p>raw</p>\n");
    let mut again = ChapterRewrite::begin(&first, "book/ch1.md", &config);
    assert_eq!(again.advance(), done(&first));
}

#[test]
fn rewritten_chapter_holds_no_directive() {
    let config = QuizConfig::new(None, Some(true));
    let mut rewrite = ChapterRewrite::begin("Intro\n\n{{#quiz geo.toml}}\n\nOutro\n", "book/ch1.md", &config);
    assert_eq!(rewrite.advance(), load("book/geo.toml", "geo.toml"));
    assert_eq!(rewrite.supply(Ok(CAPITALS.to_owned())), Ok(()));
    let first = match rewrite.advance() {
        Step::Done { content } => content,
        other => panic!("{:?}", other),
    };
    assert_eq!(first, format!("Intro\n\n{}\n\nOutro", CAPITALS_PLACEHOLDER));
    let mut again = ChapterRewrite::begin(&first, "book/ch1.md", &config);
    assert_eq!(again.advance(), done(&first));
}

#[test]
fn directives_are_expanded_in_order() {
    let config = QuizConfig::new(Some("/log".to_owned()), None);
    let content = "{{#quiz one.toml}}\n\ntext\n\n{{#quiz sub/two.toml}}\n";
    let mut rewrite = ChapterRewrite::begin(content, "/book/src/part/ch.md", &config);
    assert_eq!(rewrite.advance(), load("/book/src/part/one.toml", "one.toml"));
    assert_eq!(rewrite.advance(), load("/book/src/part/one.toml", "one.toml"));
    assert_eq!(rewrite.supply(Ok("n = 1".to_owned())), Ok(()));
    assert_eq!(rewrite.advance(), load("/book/src/part/sub/two.toml", "sub/two.toml"));
    assert_eq!(rewrite.supply(Ok("n = 2".to_owned())), Ok(()));
    assert_eq!(
        rewrite.advance(),
        done(
            "<div class=\"quiz-placeholder\" data-quiz-name=\"one\"  data-quiz-questions=\"{&quot;n&quot;:1}\"  data-quiz-log-endpoint=\"/log\" ></div>\n\ntext\n\n<div class=\"quiz-placeholder\" data-quiz-name=\"two\"  data-quiz-questions=\"{&quot;n&quot;:2}\"  data-quiz-log-endpoint=\"/log\" ></div>"
        )
    );
}

#[test]
fn supply_without_a_directive_changes_nothing() {
    let config = QuizConfig::new(None, None);
    let mut rewrite = ChapterRewrite::from_tokens(vec![text("plain"), text("{{#quiz a.toml}}")], "c.md", &config);
    assert_eq!(rewrite.supply(Ok("x = 1".to_owned())), Ok(()));
    assert_eq!(rewrite.supply(Err("unread".to_owned())), Ok(()));
    assert_eq!(rewrite.current_tokens(), &vec![text("plain"), text("{{#quiz a.toml}}")]);
    assert_eq!(rewrite.advance(), load("a.toml", "a.toml"));
    assert_eq!(rewrite.supply(Ok("x = 1".to_owned())), Ok(()));
    assert_eq!(rewrite.supply(Ok("x = 2".to_owned())), Ok(()));
    assert_eq!(
        rewrite.current_tokens()[1],
        Token::Html(
            "<div class=\"quiz-placeholder\" data-quiz-name=\"a\"  data-quiz-questions=\"{&quot;x&quot;:1}\" ></div>"
                .to_owned()
        )
    );
}

#[test]
fn quoted_argument_names_a_quoted_file() {
    let config = QuizConfig::new(None, None);
    let mut rewrite = ChapterRewrite::begin("{{#quiz \"geo.toml\"}}", "book/ch1.md", &config);
    assert_eq!(rewrite.advance(), load("book/\"geo.toml\"", "\"geo.toml\""));
}

#[test]
fn empty_chapter() {
    let config = QuizConfig::new(None, None);
    let mut rewrite = ChapterRewrite::begin("", "ch.md", &config);
    assert_eq!(rewrite.advance(), done(""));
    assert!(rewrite.current_tokens().is_empty());
}

#[test]
fn processor_begins_the_rewrite_of_a_chapter() {
    let config = QuizConfig::new(None, Some(false));
    let processor = QuizProcessor::new();
    let mut rewrite = processor.process_chapter(&config, "src/intro/ch.md", "Hello\n\n{{#quiz ../q/hello.toml}}\n");
    assert_eq!(
        rewrite.current_tokens(),
        &vec![
            Token::Other(Event::Start(Tag::Paragraph)),
            text("Hello"),
            Token::Other(Event::End(Tag::Paragraph)),
            Token::Other(Event::Start(Tag::Paragraph)),
            text("{{#quiz ../q/hello.toml}}"),
            Token::Other(Event::End(Tag::Paragraph)),
        ]
    );
    assert_eq!(rewrite.advance(), load("src/intro/../q/hello.toml", "../q/hello.toml"));
    assert_eq!(rewrite.supply(Ok("greeting = \"hi\"".to_owned())), Ok(()));
    assert_eq!(
        rewrite.advance(),
        done(
            "Hello\n\n<div class=\"quiz-placeholder\" data-quiz-name=\"hello\"  data-quiz-questions=\"{&quot;greeting&quot;:&quot;hi&quot;}\"  data-quiz-fullscreen=\"\" ></div>"
        )
    );
}

#[test]
fn directive_within_a_line_of_text_is_kept() {
    let config = QuizConfig::new(None, None);
    let content = "See {{#quiz geo.toml}} below.\n";
    let mut rewrite = ChapterRewrite::begin(content, "book/ch1.md", &config);
    assert_eq!(rewrite.advance(), done("See {{#quiz geo.toml}} below."));
}
