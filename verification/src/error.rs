//! What can go wrong while a chapter is rewritten.

use vstd::prelude::*;

verus! {

/// The failure of a rewrite. Each one ends the rewrite of the chapter in
/// which it comes up.
#[derive(Debug, PartialEq, Eq)]
pub enum QuizError {
    /// The definition file at `path` could not be read.
    Io { path: String, message: String },
    /// The text read from `path` is no well-formed definition.
    Format { path: String, message: String },
    /// The definition read from `path` cannot be written in the form that
    /// the placeholder carries.
    Encode { path: String, message: String },
    /// The option `key` of the configuration holds a value of the wrong
    /// kind.
    Config { key: String },
}

/// What an error says: what failed, and the path or the key that it
/// concerns, then the words that came with the failure.
pub open spec fn description(error: QuizError) -> Seq<char> {
    match error {
        QuizError::Io { path, message } => "cannot read the quiz at "@ + path@ + ": "@ + message@,
        QuizError::Format { path, message } => "malformed quiz at "@ + path@ + ": "@ + message@,
        QuizError::Encode { path, message } => "cannot encode the quiz at "@ + path@ + ": "@
            + message@,
        QuizError::Config { key } => "wrong kind of value for the option "@ + key@,
    }
}

impl QuizError {
    /// The error in words.
    pub fn describe(&self) -> (text: String)
        ensures
            text@ == description(*self),
    {
        match self {
            QuizError::Io { path, message } => about(
                "cannot read the quiz at ",
                path.as_str(),
                message.as_str(),
            ),
            QuizError::Format { path, message } => about(
                "malformed quiz at ",
                path.as_str(),
                message.as_str(),
            ),
            QuizError::Encode { path, message } => about(
                "cannot encode the quiz at ",
                path.as_str(),
                message.as_str(),
            ),
            QuizError::Config { key } => {
                let mut text = "wrong kind of value for the option ".to_owned();
                text.append(key.as_str());
                text
            },
        }
    }
}

/// The words `what`, the path, a colon with a space, and the message.
fn about(what: &str, path: &str, message: &str) -> (text: String)
    ensures
        text@ == what@ + path@ + ": "@ + message@,
{
    let mut text = what.to_owned();
    text.append(path);
    text.append(": ");
    text.append(message);
    text
}

} // verus!
