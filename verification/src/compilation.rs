//! The error taxonomy of the transcript compiler. The compiler itself drives
//! an outside typesetting engine through that engine's world interface, so it
//! lives with the service, not here; its callers keep this error type and the
//! wording of its descriptions.

use vstd::prelude::*;

verus! {

/// Why compiling a transcript failed.
#[derive(Debug, Clone, PartialEq, Eq)]
pub enum CompilationError {
    FontError(String),
    TypstError(String),
    PdfError(String),
    IoError(String),
}

impl CompilationError {
    /// The description the service logs and reports, prefixed by the failing
    /// stage.
    pub fn message(&self) -> (r: String)
        ensures
            match self {
                CompilationError::FontError(s) => r@ == "Font loading error: "@ + s@,
                CompilationError::TypstError(s) => r@ == "Compilation error: "@ + s@,
                CompilationError::PdfError(s) => r@ == "PDF generation error: "@ + s@,
                CompilationError::IoError(s) => r@ == "IO error: "@ + s@,
            },
    {
        let (prefix, detail) = match self {
            CompilationError::FontError(s) => (String::from_str("Font loading error: "), s),
            CompilationError::TypstError(s) => (String::from_str("Compilation error: "), s),
            CompilationError::PdfError(s) => (String::from_str("PDF generation error: "), s),
            CompilationError::IoError(s) => (String::from_str("IO error: "), s),
        };
        let mut message = prefix;
        message.append(detail.as_str());
        message
    }
}

} // verus!
