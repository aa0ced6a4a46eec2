//! The errors the launcher reports.
use vstd::prelude::*;
use crate::text::concat2;

verus! {

/// An error of the launcher, with the text that describes it. Failures of
/// file access and of JSON decoding carry the message of the underlying error.
#[derive(Debug, Clone, PartialEq)]
pub enum AppError {
    Io(String),
    Json(String),
    VersionNotFound(String),
    JavaNotFound(String),
    LibraryMissing(String),
    JarNotFound(String),
    AccountError(String),
    LaunchFailed(String),
}

/// The text shown for an error: a fixed prefix naming its kind, then its detail.
pub open spec fn spec_error_message(e: AppError) -> Seq<char> {
    match e {
        AppError::Io(m) => "IO error: "@ + m@,
        AppError::Json(m) => "JSON error: "@ + m@,
        AppError::VersionNotFound(m) => "Version not found: "@ + m@,
        AppError::JavaNotFound(m) => "Java not found: "@ + m@,
        AppError::LibraryMissing(m) => "Library missing: "@ + m@,
        AppError::JarNotFound(m) => "JAR not found: "@ + m@,
        AppError::AccountError(m) => "Account error: "@ + m@,
        AppError::LaunchFailed(m) => "Launch failed: "@ + m@,
    }
}

impl AppError {
    /// The text that describes this error.
    pub fn message(&self) -> (r: String)
        ensures
            r@ == spec_error_message(*self),
    {
        match self {
            AppError::Io(m) => concat2("IO error: ", m.as_str()),
            AppError::Json(m) => concat2("JSON error: ", m.as_str()),
            AppError::VersionNotFound(m) => concat2("Version not found: ", m.as_str()),
            AppError::JavaNotFound(m) => concat2("Java not found: ", m.as_str()),
            AppError::LibraryMissing(m) => concat2("Library missing: ", m.as_str()),
            AppError::JarNotFound(m) => concat2("JAR not found: ", m.as_str()),
            AppError::AccountError(m) => concat2("Account error: ", m.as_str()),
            AppError::LaunchFailed(m) => concat2("Launch failed: ", m.as_str()),
        }
    }
}

} // verus!
