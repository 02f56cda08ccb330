//! An error that belongs to a file: what went wrong, in which file, and
//! where in it.

use crate::location::FileLocation;
use crate::text::opt_text;
use vstd::prelude::*;

verus! {

/// What an error that belongs to a file holds.
pub ghost struct FileErrorModel<D> {
    pub description: D,
    pub file_path: Option<Seq<char>>,
    pub at_character: Option<(int, int)>,
}

/// The pair of numbers of an optional location.
pub open spec fn opt_pair(at: Option<FileLocation>) -> Option<(int, int)> {
    match at {
        Some(l) => Some(l.pair()),
        None => None,
    }
}

/// A description of what went wrong, with the file it happened in and the
/// place in that file, as far as they are known.
#[derive(Debug, PartialEq, Eq, Hash)]
pub struct FileRelatedError<TDesc> {
    pub(crate) description: TDesc,
    pub(crate) file_path: Option<String>,
    pub(crate) at_character: Option<FileLocation>,
}

impl<TDesc: View> View for FileRelatedError<TDesc> {
    type V = FileErrorModel<TDesc::V>;

    closed spec fn view(&self) -> FileErrorModel<TDesc::V> {
        FileErrorModel {
            description: self.description@,
            file_path: opt_text(self.file_path),
            at_character: opt_pair(self.at_character),
        }
    }
}

impl<TDesc: View> FileRelatedError<TDesc> {
    /// An error made of its three parts.
    pub fn from_data(
        description: TDesc,
        file_path: Option<String>,
        at_character: Option<FileLocation>,
    ) -> (e: Self)
        ensures
            e@ == (FileErrorModel {
                description: description@,
                file_path: opt_text(file_path),
                at_character: opt_pair(at_character),
            }),
    {
        Self { description, file_path, at_character }
    }

    /// An error that belongs to no known file.
    pub fn with_desc_only(description: TDesc) -> (e: Self)
        ensures
            e@ == (FileErrorModel {
                description: description@,
                file_path: None,
                at_character: None,
            }),
    {
        Self::from_data(description, None, None)
    }

    /// An error that belongs to a file as a whole.
    pub fn with_desc_and_path(description: TDesc, file_path: Option<String>) -> (e: Self)
        ensures
            e@ == (FileErrorModel {
                description: description@,
                file_path: opt_text(file_path),
                at_character: None,
            }),
    {
        Self::from_data(description, file_path, None)
    }

    /// An error with everything known about it.
    pub fn complete(
        description: TDesc,
        file_path: Option<String>,
        at_character: Option<FileLocation>,
    ) -> (e: Self)
        ensures
            e@ == (FileErrorModel {
                description: description@,
                file_path: opt_text(file_path),
                at_character: opt_pair(at_character),
            }),
    {
        Self::from_data(description, file_path, at_character)
    }

    /// What went wrong.
    pub fn description(&self) -> (r: &TDesc)
        ensures
            r@ == self@.description,
    {
        &self.description
    }

    /// The file in which it went wrong, if that is known.
    pub fn file_path(&self) -> (r: Option<&String>)
        ensures
            match r {
                Some(p) => self@.file_path == Some(p@),
                None => self@.file_path is None,
            },
    {
        self.file_path.as_ref()
    }

    /// The place in the file, if that is known.
    pub fn at_character(&self) -> (r: &Option<FileLocation>)
        ensures
            opt_pair(*r) == self@.at_character,
    {
        &self.at_character
    }
}

} // verus!
