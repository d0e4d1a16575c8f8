//! Expansion of quiz directives in book chapters.
//!
//! A chapter is read as a stream of markup tokens. A text token that is
//! exactly `{{#quiz <path>}}` names a quiz definition; it is replaced by a
//! placeholder element that carries the quiz's name and its definition, and
//! the stream is written back as markup.

pub mod config;
pub mod definition;
pub mod directive;
pub mod error;
pub mod escape;
pub mod nesting;
pub mod path;
pub mod placeholder;
pub mod processor;
pub mod rewrite;
pub mod text;
pub mod token;

pub use crate::config::{QuizConfig, Setting};
pub use crate::error::QuizError;
pub use crate::processor::QuizProcessor;
pub use crate::rewrite::{ChapterRewrite, Step};
pub use crate::token::Token;
