use mdbook_quiz::placeholder::Placeholder;
use mdbook_quiz::QuizConfig;

#[test]
fn placeholder_without_attributes() {
    assert_eq!(Placeholder::new().to_markup(), "<div class=\"quiz-placeholder\"></div>");
}

#[test]
fn attributes_come_in_the_order_given() {
    let mut placeholder = Placeholder::new();
    placeholder.add_data("b", "1");
    placeholder.add_data("a", "2");
    assert_eq!(
        placeholder.to_markup(),
        "<div class=\"quiz-placeholder\" data-b=\"1\"  data-a=\"2\" ></div>"
    );
}

#[test]
fn values_are_escaped() {
    let mut placeholder = Placeholder::new();
    placeholder.add_data("quiz-questions", "{\"q\":\"a<b & c>d\"}");
    assert_eq!(
        placeholder.to_markup(),
        "<div class=\"quiz-placeholder\" data-quiz-questions=\"{&quot;q&quot;:&quot;a&lt;b &amp; c&gt;d&quot;}\" ></div>"
    );
}

#[test]
fn quiz_without_options() {
    let config = QuizConfig::new(None, None);
    assert_eq!(
        Placeholder::for_quiz("geo", "{}", &config).to_markup(),
        "<div class=\"quiz-placeholder\" data-quiz-name=\"geo\"  data-quiz-questions=\"{}\" ></div>"
    );
}

#[test]
fn quiz_with_endpoint() {
    let config = QuizConfig::new(Some("http://log?a=1&b=2".to_owned()), None);
    assert_eq!(
        Placeholder::for_quiz("geo", "{}", &config).to_markup(),
        "<div class=\"quiz-placeholder\" data-quiz-name=\"geo\"  data-quiz-questions=\"{}\"  data-quiz-log-endpoint=\"http://log?a=1&amp;b=2\" ></div>"
    );
}

#[test]
fn fullscreen_is_written_whatever_its_value() {
    let expected = "<div class=\"quiz-placeholder\" data-quiz-name=\"geo\"  data-quiz-questions=\"{}\"  data-quiz-fullscreen=\"\" ></div>";
    let config = QuizConfig::new(None, Some(true));
    assert_eq!(Placeholder::for_quiz("geo", "{}", &config).to_markup(), expected);
    let config = QuizConfig::new(None, Some(false));
    assert_eq!(Placeholder::for_quiz("geo", "{}", &config).to_markup(), expected);
}

#[test]
fn quiz_with_both_options() {
    let config = QuizConfig::new(Some("/log".to_owned()), Some(true));
    assert_eq!(
        Placeholder::for_quiz("geo", "[1]", &config).to_markup(),
        "<div class=\"quiz-placeholder\" data-quiz-name=\"geo\"  data-quiz-questions=\"[1]\"  data-quiz-log-endpoint=\"/log\"  data-quiz-fullscreen=\"\" ></div>"
    );
}
