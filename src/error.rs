use vstd::prelude::*;

verus! {

/// Why a record, a batch or a run failed. Paths are kept as text.
#[derive(Debug, Clone, PartialEq, Eq)]
pub enum Error {
    /// A file could not be read.
    FileRead { path: String, message: String },
    /// Output could not be written.
    FileWrite { path: String, message: String },
    /// The text does not open with `---` or has no closing `---` line.
    InvalidFrontmatter { path: String, message: String },
    /// The header block is not well-formed, or a key holds a value of the wrong shape.
    YamlParse { path: String, message: String },
    /// A required field is empty or absent.
    MissingField { path: String, field: String },
    /// The page template could not be rendered.
    TemplateRender { message: String },
    /// No record file matched.
    NoAdrsFound { path: String },
    /// Validation found this many errors.
    ValidationFailed(usize),
    /// A file name could not be used.
    InvalidFilename(String),
    /// The file pattern is not valid.
    GlobPattern(String),
    /// A date value is present, not empty, and not an ISO 8601 date.
    DateParse { path: String, message: String },
    /// Output could not be serialized.
    JsonSerialize(String),
}

} // verus!
