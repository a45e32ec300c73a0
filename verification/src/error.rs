//! The ways in which a command over a manifest can fail.
use vstd::prelude::*;

verus! {

/// Why a command stopped. Every failure ends the command; none is retried.
#[derive(Debug, Clone, PartialEq, Eq)]
pub enum Error {
    /// No manifest file exists at `path`.
    ManifestNotFound { path: String },
    /// The manifest file does not hold a manifest.
    MalformedManifest,
    /// No dependency name can be taken from the repository URL `repo`.
    NameDerivationFailed { repo: String },
    /// The manifest already holds a dependency called `name`.
    DuplicateDependency { name: String },
    /// The version-control tool ended with `code`, or without one when a
    /// signal ended it.
    SubprocessFailed { code: Option<i32> },
    /// Another failure of the file system, at `path`.
    IoError { path: String },
}

/// An [`Error`] with its texts as sequences of characters.
pub enum ErrorView {
    ManifestNotFound { path: Seq<char> },
    MalformedManifest,
    NameDerivationFailed { repo: Seq<char> },
    DuplicateDependency { name: Seq<char> },
    SubprocessFailed { code: Option<i32> },
    IoError { path: Seq<char> },
}

impl View for Error {
    type V = ErrorView;

    open spec fn view(&self) -> ErrorView {
        match self {
            Error::ManifestNotFound { path } => ErrorView::ManifestNotFound { path: path@ },
            Error::MalformedManifest => ErrorView::MalformedManifest,
            Error::NameDerivationFailed { repo } => ErrorView::NameDerivationFailed { repo: repo@ },
            Error::DuplicateDependency { name } => ErrorView::DuplicateDependency { name: name@ },
            Error::SubprocessFailed { code } => ErrorView::SubprocessFailed { code: *code },
            Error::IoError { path } => ErrorView::IoError { path: path@ },
        }
    }
}

impl Error {
    /// The error for a manifest file at `path` that could not be opened:
    /// `ManifestNotFound` where the file is missing, `IoError` otherwise.
    pub fn open_failure(path: String, missing: bool) -> (error: Error)
        ensures
            error@ == if missing {
                ErrorView::ManifestNotFound { path: path@ }
            } else {
                ErrorView::IoError { path: path@ }
            },
    {
        if missing {
            Error::ManifestNotFound { path }
        } else {
            Error::IoError { path }
        }
    }
}

} // verus!
