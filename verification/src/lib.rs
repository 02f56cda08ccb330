//! Localized text resolution: translation sources are read into one tree,
//! a path and a language pick a template out of it, and the template is
//! filled with the caller's values.

pub mod builder;
pub mod catalog;
pub mod config;
pub mod document;
pub mod error;
pub mod format;
pub mod language;
pub mod location;
pub mod nesting;
pub mod node;
pub mod offsets;
pub mod runtime;
pub mod tables;
pub mod template;
pub mod text;
pub mod tree;

pub use builder::TranslationTreeBuilder;
pub use catalog::Language;
pub use config::{Config, MacroConfig, SeekMode, TranslationOverlap};
pub use document::Document;
pub use error::FileRelatedError;
pub use format::{FormatString, TemplateError};
pub use language::{LanguageError, Similarities};
pub use location::FileLocation;
pub use nesting::NestingType;
pub use node::{TranslationNode, TranslationNodeCollection, TranslationNodeError};
pub use runtime::RuntimeError;
pub use template::{TemplateParseError, TemplatedString};
pub use tree::{
    Translation, TranslationNotFound, TranslationTree, TranslationTreeErrorDescription,
};
