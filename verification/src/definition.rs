//! Quiz definitions: reading one from the text of its file and writing it
//! as JSON.
//!
//! A definition is a document of the `toml` crate, and `serde_json` writes
//! it. What the two crates compute is not spelled out here: each result has
//! a name, and the contracts say where the results go.
//!
//! Both crates descend one level of their call stack for each level of
//! nesting, and neither counts the levels. A text that nests deeper than the
//! limit of this library is therefore turned away before either crate sees
//! it.
//!
//! JSON has no form for a number that is not finite, and the writer puts
//! `null` in its place. TOML has no null, so a `null` in the JSON of a
//! definition stands for such a number, and the definition cannot be
//! written without loss.

use crate::error::QuizError;
use crate::nesting::{nesting, nests_within, NESTING_LIMIT};
use crate::text::characters;
use vstd::prelude::*;

verus! {

/// A value of the `toml` crate: a scalar, an array or a table.
#[verifier::external_type_specification]
#[verifier::external_body]
pub struct ExTomlValue(toml::Value);

/// The error of the `toml` crate's parser.
#[verifier::external_type_specification]
#[verifier::external_body]
pub struct ExTomlError(toml::de::Error);

/// The error of `serde_json`.
#[verifier::external_type_specification]
#[verifier::external_body]
pub struct ExJsonError(serde_json::Error);

/// The document that the `toml` crate reads from a text, or `None` where it
/// rejects the text.
pub uninterp spec fn toml_document(text: Seq<char>) -> Option<toml::Value>;

/// The JSON text that `serde_json` writes for a value, or `None` where it
/// cannot write the value.
pub uninterp spec fn json_text(value: toml::Value) -> Option<Seq<char>>;

/// Whether a value is the document of a text that nests within the limit.
pub open spec fn is_shallow(value: toml::Value) -> bool {
    exists|text: Seq<char>| #[trigger]
        toml_document(text) == Some(value) && nesting(text) <= NESTING_LIMIT
}

/// The parser of the `toml` crate, through `str::parse`: the document that
/// the text holds, or the parser's error. The parser calls itself for each
/// array and inline table within another and for each part of a dotted key,
/// and the document that it builds has a level for each of these and for
/// each part of a table's header; so the text has to nest within the limit.
#[verifier::external_body]
fn parse_document(text: &str) -> (result: Result<toml::Value, toml::de::Error>)
    requires
        nesting(text@) <= NESTING_LIMIT,
    ensures
        match result {
            Ok(value) => toml_document(text@) == Some(value),
            Err(_) => toml_document(text@) is None,
        },
{
    text.parse::<toml::Value>()
}

/// `serde_json::to_string` on a value of the `toml` crate: the value as one
/// line of JSON, or the error of the writer. The writer calls itself for
/// each level of the value, so the value has to be the document of a text
/// that nests within the limit.
#[verifier::external_body]
fn write_json(value: &toml::Value) -> (result: Result<String, serde_json::Error>)
    requires
        is_shallow(*value),
    ensures
        match result {
            Ok(text) => json_text(*value) == Some(text@),
            Err(_) => json_text(*value) is None,
        },
{
    serde_json::to_string(value)
}

/// What the parser's error says, in the words of the `toml` crate.
#[verifier::external_body]
fn parse_error_message(error: &toml::de::Error) -> (message: String) {
    error.to_string()
}

/// What the writer's error says, in the words of `serde_json`.
#[verifier::external_body]
fn write_error_message(error: &serde_json::Error) -> (message: String) {
    error.to_string()
}

/// Where the reading of a JSON text stands: in a string or not, behind a
/// backslash in a string or not, and whether a `null` has been met.
#[derive(Clone, Copy)]
pub struct Reading {
    pub in_string: bool,
    pub escaped: bool,
    pub null: bool,
}

/// The reading behind one more character. A string runs from one `"` to
/// the next that stands behind no backslash. Outside strings a JSON text
/// holds the letter `n` in `null` and nowhere else.
pub open spec fn read_on(reading: Reading, c: char) -> Reading {
    if reading.in_string {
        if reading.escaped {
            Reading { escaped: false, ..reading }
        } else if c == '\\' {
            Reading { escaped: true, ..reading }
        } else if c == '"' {
            Reading { in_string: false, ..reading }
        } else {
            reading
        }
    } else if c == '"' {
        Reading { in_string: true, ..reading }
    } else if c == 'n' {
        Reading { null: true, ..reading }
    } else {
        reading
    }
}

/// The reading behind the first `n` characters of a JSON text.
pub open spec fn read_to(json: Seq<char>, n: nat) -> Reading
    decreases n,
{
    if n == 0 {
        Reading { in_string: false, escaped: false, null: false }
    } else {
        read_on(read_to(json, (n - 1) as nat), json[n - 1])
    }
}

/// Whether a JSON text holds a `null` outside its strings.
pub open spec fn holds_null(json: Seq<char>) -> bool {
    read_to(json, json.len()).null
}

/// Whether a JSON text holds a `null` outside its strings.
pub fn has_null(json: &str) -> (found: bool)
    ensures
        found == holds_null(json@),
{
    let chars = characters(json);
    let mut reading = Reading { in_string: false, escaped: false, null: false };
    let mut i: usize = 0;
    while i < chars.len()
        invariant
            i <= chars.len(),
            chars@ == json@,
            reading == read_to(json@, i as nat),
        decreases chars.len() - i,
    {
        let c = chars[i];
        if reading.in_string {
            if reading.escaped {
                reading.escaped = false;
            } else if c == '\\' {
                reading.escaped = true;
            } else if c == '"' {
                reading.in_string = false;
            }
        } else if c == '"' {
            reading.in_string = true;
        } else if c == 'n' {
            reading.null = true;
        }
        i += 1;
    }
    reading.null
}

/// What becomes of the text of a definition file: the JSON of the document
/// that it holds.
pub enum Encoding {
    /// The text holds a document, and this is its JSON.
    Json(Seq<char>),
    /// The text is no well-formed document, or it nests deeper than the
    /// limit.
    Malformed,
    /// The text holds a document that cannot be written as JSON, or not
    /// without loss: one of its numbers is not finite.
    Unwritable,
}

/// The encoding of the text of a definition file.
pub open spec fn encoding_of(content: Seq<char>) -> Encoding {
    if nesting(content) > NESTING_LIMIT {
        Encoding::Malformed
    } else {
        match toml_document(content) {
            None => Encoding::Malformed,
            Some(document) => match json_text(document) {
                None => Encoding::Unwritable,
                Some(json) => if holds_null(json) {
                    Encoding::Unwritable
                } else {
                    Encoding::Json(json)
                },
            },
        }
    }
}

/// Whether `result` reports `encoding` for the definition at `path`: the
/// JSON, or the error of its kind, which names the path.
pub open spec fn reports_encoding(
    result: Result<String, QuizError>,
    path: Seq<char>,
    encoding: Encoding,
) -> bool {
    match encoding {
        Encoding::Json(json) => result matches Ok(text) && text@ == json,
        Encoding::Malformed => result matches Err(QuizError::Format { path: named, .. })
            && named@ == path,
        Encoding::Unwritable => result matches Err(QuizError::Encode { path: named, .. })
            && named@ == path,
    }
}

/// Reads the text of the definition file at `path` and writes the
/// definition as JSON. A text that nests deeper than the limit or is no
/// well-formed document is a `Format` error. A document that cannot be
/// written, and one with a number that is not finite, is an `Encode` error.
pub fn encode_definition(path: &str, content: &str) -> (result: Result<String, QuizError>)
    ensures
        reports_encoding(result, path@, encoding_of(content@)),
{
    if !nests_within(content, NESTING_LIMIT) {
        return Err(
            QuizError::Format { path: path.to_owned(), message: "nested too deeply".to_owned() },
        );
    }
    match parse_document(content) {
        Err(error) => Err(
            QuizError::Format { path: path.to_owned(), message: parse_error_message(&error) },
        ),
        Ok(document) => {
            assert(toml_document(content@) == Some(document));
            match write_json(&document) {
                Err(error) => Err(
                    QuizError::Encode {
                        path: path.to_owned(),
                        message: write_error_message(&error),
                    },
                ),
                Ok(json) => {
                    if has_null(json.as_str()) {
                        Err(
                            QuizError::Encode {
                                path: path.to_owned(),
                                message: "a number is not finite".to_owned(),
                            },
                        )
                    } else {
                        Ok(json)
                    }
                },
            }
        },
    }
}

} // verus!
