use crate::packages::{FailureView, PackageFailure};
use vstd::prelude::*;

verus! {

/// Why a file could not be handed to the compiler, in the model.
pub enum FileFailureView {
    Unsaved,
    AccessDenied,
    NotFound(Seq<char>),
    IsDirectory,
    InvalidUtf8,
    Package(FailureView),
    Other(Seq<char>),
}

/// Why a file could not be handed to the compiler.
#[derive(Debug)]
pub enum FileFailure {
    /// The document has no directory yet, so it cannot refer to other files.
    Unsaved,
    /// The path leaves every directory that the session may read.
    AccessDenied,
    /// There is no file at the path, which is given.
    NotFound(String),
    /// The path names a directory.
    IsDirectory,
    /// The file is not valid UTF-8 although a source text was asked for.
    InvalidUtf8,
    /// The package that holds the file could not be resolved.
    Package(PackageFailure),
    /// Reading failed in another way; the message says how.
    Other(String),
}

impl View for FileFailure {
    type V = FileFailureView;

    open spec fn view(&self) -> FileFailureView {
        match self {
            FileFailure::Unsaved => FileFailureView::Unsaved,
            FileFailure::AccessDenied => FileFailureView::AccessDenied,
            FileFailure::NotFound(path) => FileFailureView::NotFound(path@),
            FileFailure::IsDirectory => FileFailureView::IsDirectory,
            FileFailure::InvalidUtf8 => FileFailureView::InvalidUtf8,
            FileFailure::Package(failure) => FileFailureView::Package(failure@),
            FileFailure::Other(message) => FileFailureView::Other(message@),
        }
    }
}

impl Clone for FileFailure {
    fn clone(&self) -> (copy: Self)
        ensures
            copy@ == self@,
    {
        match self {
            FileFailure::Unsaved => FileFailure::Unsaved,
            FileFailure::AccessDenied => FileFailure::AccessDenied,
            FileFailure::NotFound(path) => FileFailure::NotFound(path.clone()),
            FileFailure::IsDirectory => FileFailure::IsDirectory,
            FileFailure::InvalidUtf8 => FileFailure::InvalidUtf8,
            FileFailure::Package(failure) => FileFailure::Package(failure.clone()),
            FileFailure::Other(message) => FileFailure::Other(message.clone()),
        }
    }
}

impl FileFailure {
    /// What the user is told when an unsaved document refers to a file.
    pub fn unsaved_message() -> (text: &'static str)
        ensures
            text@ == "unsaved files cannot include external files"@,
    {
        "unsaved files cannot include external files"
    }
}

} // verus!
