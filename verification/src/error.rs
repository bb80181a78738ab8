//! Error taxonomy of the two configuration subsystems.
use vstd::prelude::*;

verus! {

/// Everything that can go wrong while loading and validating a build
/// descriptor. Each variant carries the offending input, so callers can
/// report a user-actionable cause.
#[derive(Debug)]
pub enum ConfigError {
    /// The descriptor file could not be opened or read.
    IoError(String),
    /// The descriptor text is not a well-formed document, or does not
    /// match the schema; carries the descriptor path and a diagnostic.
    ConfigParseError { path: String, detail: String },
    /// The `image-type` field is not one of the four accepted labels;
    /// carries the rejected label.
    InvalidImageType(String),
    /// The `source` field does not name an existing regular file;
    /// carries the rejected path.
    SourceNotFound(String),
    /// `image-type` is `kernel` but no `kernel-version` was given.
    MissingKernelVersion,
}

/// Everything that can fail a system identity file's load.
#[derive(Debug)]
pub enum IdentityError {
    /// A value opens with a quote character that is not matched at the
    /// end of the value; carries the offending text.
    UnmatchedQuote(String),
}

} // verus!
