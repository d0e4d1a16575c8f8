//! The placeholder element that stands where a directive stood.
//!
//! A placeholder is an empty `div` of the class `quiz-placeholder`. What it
//! carries are data attributes; every value is escaped on its way into the
//! markup.

use crate::config::{QuizConfig, QuizConfigView};
use crate::escape::{
    escape_attribute,
    escaped,
    lemma_escaped_is_plain,
    lemma_unescaped_escaped,
    unescaped,
};
use vstd::prelude::*;

verus! {

/// An attribute: its key and its value as given, not yet escaped.
pub type AttributeView = (Seq<char>, Seq<char>);

/// The markup of one attribute: a space, `data-` and the key, then the
/// escaped value between double quotes, and a space.
pub open spec fn attribute_markup(attribute: AttributeView) -> Seq<char> {
    " data-"@ + attribute.0 + "=\""@ + escaped(attribute.1) + "\" "@
}

/// The markup of the attributes, one after the other.
pub open spec fn attributes_markup(attributes: Seq<AttributeView>) -> Seq<char>
    decreases attributes.len(),
{
    if attributes.len() == 0 {
        Seq::empty()
    } else {
        attributes_markup(attributes.drop_last()) + attribute_markup(attributes.last())
    }
}

/// The markup of the placeholder with these attributes.
pub open spec fn placeholder_markup(attributes: Seq<AttributeView>) -> Seq<char> {
    "<div class=\"quiz-placeholder\""@ + attributes_markup(attributes) + "></div>"@
}

/// The attributes of the placeholder of a quiz: its name and its questions,
/// then the endpoint where one is configured, then an empty `quiz-fullscreen`
/// where the fullscreen option was given, whatever its value.
pub open spec fn quiz_attributes(
    name: Seq<char>,
    questions: Seq<char>,
    config: QuizConfigView,
) -> Seq<AttributeView> {
    seq![("quiz-name"@, name), ("quiz-questions"@, questions)] + (match config.log_endpoint {
        Some(endpoint) => seq![("quiz-log-endpoint"@, endpoint)],
        None => Seq::empty(),
    }) + (if config.fullscreen is Some {
        seq![("quiz-fullscreen"@, Seq::empty())]
    } else {
        Seq::empty()
    })
}

/// The value of the first attribute with this key, if there is one.
pub open spec fn attribute_value(attributes: Seq<AttributeView>, key: Seq<char>) -> Option<
    Seq<char>,
>
    decreases attributes.len(),
{
    if attributes.len() == 0 {
        None
    } else if attributes[0].0 == key {
        Some(attributes[0].1)
    } else {
        attribute_value(attributes.drop_first(), key)
    }
}

/// What the placeholder of a quiz says: its name under `quiz-name`, its
/// questions under `quiz-questions`, the endpoint under `quiz-log-endpoint`
/// where one is configured and not otherwise, and an empty `quiz-fullscreen`
/// where the fullscreen option was given and not otherwise.
pub proof fn lemma_quiz_attributes(name: Seq<char>, questions: Seq<char>, config: QuizConfigView)
    ensures
        attribute_value(quiz_attributes(name, questions, config), "quiz-name"@) == Some(name),
        attribute_value(quiz_attributes(name, questions, config), "quiz-questions"@) == Some(
            questions,
        ),
        attribute_value(quiz_attributes(name, questions, config), "quiz-log-endpoint"@)
            == config.log_endpoint,
        attribute_value(quiz_attributes(name, questions, config), "quiz-fullscreen"@) == if config.fullscreen
            is Some {
            Some(Seq::<char>::empty())
        } else {
            None
        },
{
    reveal_strlit("quiz-name");
    reveal_strlit("quiz-questions");
    reveal_strlit("quiz-log-endpoint");
    reveal_strlit("quiz-fullscreen");
    let all = quiz_attributes(name, questions, config);
    assert("quiz-name"@.len() == 9 && "quiz-questions"@.len() == 14 && "quiz-log-endpoint"@.len()
        == 17 && "quiz-fullscreen"@.len() == 15);
    let second = all.drop_first();
    let third = second.drop_first();
    let fourth = third.drop_first();
    reveal_with_fuel(attribute_value, 5);
    assert(all[0] == ("quiz-name"@, name));
    assert(second[0] == ("quiz-questions"@, questions));
    if config.log_endpoint is Some {
        assert(third[0] == ("quiz-log-endpoint"@, config.log_endpoint->0));
        if config.fullscreen is Some {
            assert(fourth[0] == ("quiz-fullscreen"@, Seq::<char>::empty()));
            assert(fourth.drop_first().len() == 0);
        } else {
            assert(fourth.len() == 0);
        }
    } else {
        if config.fullscreen is Some {
            assert(third[0] == ("quiz-fullscreen"@, Seq::<char>::empty()));
            assert(fourth.len() == 0);
        } else {
            assert(third.len() == 0);
        }
    }
}

/// The value of an attribute stands in the markup between two double
/// quotes, in a form that holds none of them and reads back as the value.
pub proof fn lemma_attribute_value_is_quoted(attribute: AttributeView)
    ensures
        ({
            let markup = attribute_markup(attribute);
            let value = escaped(attribute.1);
            let from = 8 + attribute.0.len() as int;
            &&& markup.len() == from + value.len() + 2
            &&& markup[from - 1] == '"'
            &&& markup.subrange(from, from + value.len()) == value
            &&& markup[from + value.len()] == '"'
            &&& forall|i: int| 0 <= i < value.len() ==> value[i] != '"'
            &&& unescaped(value) == attribute.1
        }),
{
    reveal_strlit(" data-");
    reveal_strlit("=\"");
    reveal_strlit("\" ");
    let markup = attribute_markup(attribute);
    let value = escaped(attribute.1);
    let from = 8 + attribute.0.len() as int;
    lemma_escaped_is_plain(attribute.1);
    lemma_unescaped_escaped(attribute.1);
    assert(markup.subrange(from, from + value.len()) =~= value);
}

/// The attributes that a placeholder is given, in the order in which they
/// are written.
pub struct Placeholder {
    attributes: Vec<(String, String)>,
}

impl View for Placeholder {
    type V = Seq<AttributeView>;

    closed spec fn view(&self) -> Seq<AttributeView> {
        Seq::new(
            self.attributes@.len(),
            |i: int| (self.attributes@[i].0@, self.attributes@[i].1@),
        )
    }
}

impl Placeholder {
    /// A placeholder without attributes.
    pub fn new() -> (placeholder: Self)
        ensures
            placeholder@ == Seq::<AttributeView>::empty(),
    {
        let placeholder = Placeholder { attributes: Vec::new() };
        assert(placeholder@ =~= Seq::<AttributeView>::empty());
        placeholder
    }

    /// Adds the attribute `data-<key>` with this value behind those that the
    /// placeholder has.
    pub fn add_data(&mut self, key: &str, value: &str)
        ensures
            final(self)@ == old(self)@.push((key@, value@)),
    {
        self.attributes.push((key.to_owned(), value.to_owned()));
        assert(self@ =~= old(self)@.push((key@, value@)));
    }

    /// The placeholder of a quiz, with the attributes that the options of
    /// the run ask for.
    pub fn for_quiz(name: &str, questions: &str, config: &QuizConfig) -> (placeholder: Self)
        ensures
            placeholder@ == quiz_attributes(name@, questions@, config@),
    {
        let mut placeholder = Placeholder::new();
        placeholder.add_data("quiz-name", name);
        placeholder.add_data("quiz-questions", questions);
        if let Some(endpoint) = config.log_endpoint() {
            placeholder.add_data("quiz-log-endpoint", endpoint.as_str());
        }
        if config.fullscreen().is_some() {
            placeholder.add_data("quiz-fullscreen", "");
            proof {
                reveal_strlit("");
                assert(""@ =~= Seq::<char>::empty());
            }
        }
        assert(placeholder@ =~= quiz_attributes(name@, questions@, config@));
        placeholder
    }

    /// The markup of the placeholder.
    pub fn to_markup(&self) -> (markup: String)
        ensures
            markup@ == placeholder_markup(self@),
    {
        let mut markup = "<div class=\"quiz-placeholder\"".to_owned();
        let mut i: usize = 0;
        while i < self.attributes.len()
            invariant
                i <= self.attributes.len(),
                markup@ == "<div class=\"quiz-placeholder\""@ + attributes_markup(
                    self@.take(i as int),
                ),
            decreases self.attributes.len() - i,
        {
            let ghost before = markup@;
            let value = escape_attribute(self.attributes[i].1.as_str());
            markup.append(" data-");
            markup.append(self.attributes[i].0.as_str());
            markup.append("=\"");
            markup.append(value.as_str());
            markup.append("\" ");
            proof {
                assert(self@.take(i + 1).drop_last() =~= self@.take(i as int));
                assert(self@.take(i + 1).last() == self@[i as int]);
                assert(markup@ =~= before + attribute_markup(self@[i as int]));
                assert(markup@ =~= "<div class=\"quiz-placeholder\""@ + attributes_markup(
                    self@.take(i + 1),
                ));
            }
            i += 1;
        }
        assert(self@.take(i as int) =~= self@);
        markup.append("></div>");
        markup
    }
}

} // verus!
