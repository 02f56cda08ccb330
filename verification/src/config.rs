//! The settings that decide where translations come from, in which order
//! their sources are merged, and which source wins where two meet.

use crate::catalog::Language;
use crate::text::{opt_text, same_text};
use vstd::prelude::*;

verus! {

/// The order in which sources are merged.
#[derive(Debug, Clone, Copy, PartialEq, Eq, Hash, Structural)]
pub enum SeekMode {
    /// By source name, ascending, whatever the case of the letters.
    Alphabetical,
    /// The same order, reversed.
    Unalphabetical,
}

/// Which source wins where two define the same path.
#[derive(Debug, Clone, Copy, PartialEq, Eq, Hash, Structural)]
pub enum TranslationOverlap {
    /// The one that is merged later replaces the earlier one.
    Overwrite,
    /// The one that is merged first stays.
    Ignore,
}

impl Default for SeekMode {
    fn default() -> (r: Self)
        ensures
            r == SeekMode::Alphabetical,
    {
        SeekMode::Alphabetical
    }
}

impl Default for TranslationOverlap {
    fn default() -> (r: Self)
        ensures
            r == TranslationOverlap::Overwrite,
    {
        TranslationOverlap::Overwrite
    }
}

impl SeekMode {
    /// The mode that `s` names: `Alphabetical` or `Unalphabetical`, written
    /// exactly so.
    pub fn from_str(s: &str) -> (r: Option<Self>)
        ensures
            r == (if s@ == "Alphabetical"@ {
                Some(SeekMode::Alphabetical)
            } else if s@ == "Unalphabetical"@ {
                Some(SeekMode::Unalphabetical)
            } else {
                None
            }),
    {
        if same_text(s, "Alphabetical") {
            Some(SeekMode::Alphabetical)
        } else if same_text(s, "Unalphabetical") {
            Some(SeekMode::Unalphabetical)
        } else {
            None
        }
    }
}

impl TranslationOverlap {
    /// The policy that `s` names: `Overwrite` or `Ignore`, written exactly
    /// so.
    pub fn from_str(s: &str) -> (r: Option<Self>)
        ensures
            r == (if s@ == "Overwrite"@ {
                Some(TranslationOverlap::Overwrite)
            } else if s@ == "Ignore"@ {
                Some(TranslationOverlap::Ignore)
            } else {
                None
            }),
    {
        if same_text(s, "Overwrite") {
            Some(TranslationOverlap::Overwrite)
        } else if same_text(s, "Ignore") {
            Some(TranslationOverlap::Ignore)
        } else {
            None
        }
    }
}

/// Where the translation files are and how they are merged.
#[derive(Debug)]
pub struct MacroConfig {
    path: String,
    seek_mode: SeekMode,
    overlap: TranslationOverlap,
}

impl MacroConfig {
    /// A configuration made of its three settings.
    pub fn new(path: String, seek_mode: SeekMode, overlap: TranslationOverlap) -> (c: Self)
        ensures
            c.path_text() == path@,
            c.seek_mode_value() == seek_mode,
            c.overlap_value() == overlap,
    {
        Self { path, seek_mode, overlap }
    }

    /// The directory of the translation files.
    pub closed spec fn path_text(&self) -> Seq<char> {
        self.path@
    }

    /// The order in which the files are merged.
    pub closed spec fn seek_mode_value(&self) -> SeekMode {
        self.seek_mode
    }

    /// Which file wins where two define the same path.
    pub closed spec fn overlap_value(&self) -> TranslationOverlap {
        self.overlap
    }

    /// The directory of the translation files.
    pub fn path(&self) -> (r: &str)
        ensures
            r@ == self.path_text(),
    {
        self.path.as_str()
    }

    /// The order in which the files are merged.
    pub fn seek_mode(&self) -> (r: SeekMode)
        ensures
            r == self.seek_mode_value(),
    {
        self.seek_mode
    }

    /// Which file wins where two define the same path.
    pub fn overlap(&self) -> (r: TranslationOverlap)
        ensures
            r == self.overlap_value(),
    {
        self.overlap
    }
}

/// Where the translation sources are, and what to fall back on.
#[derive(Debug)]
pub struct Config {
    sources_path: String,
    fallback_language: Option<Language>,
    fallback_translation: Option<String>,
}

impl Config {
    /// A configuration made of its three settings.
    pub fn new(
        sources_path: String,
        fallback_language: Option<Language>,
        fallback_translation: Option<String>,
    ) -> (c: Self)
        ensures
            c.sources_path_text() == sources_path@,
            c.fallback_language_value() == fallback_language,
            c.fallback_translation_text() == opt_text(fallback_translation),
    {
        Self { sources_path, fallback_language, fallback_translation }
    }

    /// The directory of the translation sources.
    pub closed spec fn sources_path_text(&self) -> Seq<char> {
        self.sources_path@
    }

    /// The language to use where the one asked for is missing.
    pub closed spec fn fallback_language_value(&self) -> Option<Language> {
        self.fallback_language
    }

    /// The text to use where no translation can be had.
    pub closed spec fn fallback_translation_text(&self) -> Option<Seq<char>> {
        opt_text(self.fallback_translation)
    }

    /// The directory of the translation sources.
    pub fn sources_path(&self) -> (r: &str)
        ensures
            r@ == self.sources_path_text(),
    {
        self.sources_path.as_str()
    }

    /// The language to use where the one asked for is missing.
    pub fn fallback_language(&self) -> (r: Option<Language>)
        ensures
            r == self.fallback_language_value(),
    {
        self.fallback_language
    }

    /// The text to use where no translation can be had.
    pub fn fallback_translation(&self) -> (r: Option<&String>)
        ensures
            match r {
                Some(t) => self.fallback_translation_text() == Some(t@),
                None => self.fallback_translation_text() is None,
            },
    {
        self.fallback_translation.as_ref()
    }
}

} // verus!
