//! The error taxonomy: lexical errors, grammar errors, a missing output
//! declaration, and an output path that is not valid text.
//!
//! Scanning and parsing fail fast: the first error aborts the whole
//! document with no partial result. Template execution never produces an
//! error; it degrades gracefully through [`crate::template::Warning`]s.

use vstd::prelude::*;

use crate::common::FileLocation;

verus! {

/// Why the tokenizer rejected the source text.
#[derive(Debug, Clone, Copy, PartialEq, Eq, Structural)]
pub enum TokenizingErrorKind {
    /// `#` not followed by a command name.
    ExpectedCommand,
    /// A quoted span interrupted by a line feed before its closing quote.
    NoMatchingQuotes,
    /// A quoted span still open at the end of the input.
    UnterminatedString,
    /// A template block with no closing brace.
    UnterminatedBlock,
    /// A character that cannot start any token.
    UnexpectedChar(char),
}

/// Why the directive parser rejected the token sequence.
#[derive(Debug, Clone, Copy, PartialEq, Eq, Structural)]
pub enum ParseErrorKind {
    /// A command with no literal, identifier or template block after it.
    ExpectedArgument,
    /// A command that is neither `out` nor `naming`.
    UnknownCommand,
    /// A directive not followed by a newline or the end of the input.
    ExpectedNewlineAfterCommand,
    /// An identifier with no template block after it.
    ExpectedTemplate,
    /// A template declaration whose name is neither `foreach` nor `norm`.
    UnsupportedTemplateType,
    /// A template block with no preceding declaration name.
    UnnamedTemplate,
    /// A string literal at the top level of the document.
    UnexpectedString,
}

/// A document-level failure.
#[derive(Debug, Clone)]
pub enum Error {
    /// Malformed lexical structure, with the failing position.
    Tokenizing { path: String, location: FileLocation, kind: TokenizingErrorKind },
    /// Malformed directive or template-declaration structure.
    Parse { path: String, location: FileLocation, kind: ParseErrorKind },
    /// The document declared no output file.
    NoOutputFile,
    /// A templated output path rendered to bytes that are not valid text.
    InvalidOutputPath,
}

/// The mathematical value of an [`Error`].
pub enum SpecError {
    Tokenizing { path: Seq<char>, location: FileLocation, kind: TokenizingErrorKind },
    Parse { path: Seq<char>, location: FileLocation, kind: ParseErrorKind },
    NoOutputFile,
    InvalidOutputPath,
}

impl View for Error {
    type V = SpecError;

    open spec fn view(&self) -> SpecError {
        match self {
            Error::Tokenizing { path, location, kind } => SpecError::Tokenizing {
                path: path@,
                location: *location,
                kind: *kind,
            },
            Error::Parse { path, location, kind } => SpecError::Parse {
                path: path@,
                location: *location,
                kind: *kind,
            },
            Error::NoOutputFile => SpecError::NoOutputFile,
            Error::InvalidOutputPath => SpecError::InvalidOutputPath,
        }
    }
}

impl Error {
    /// A lexical error at the given position.
    pub fn tokenizing_error(path: String, location: FileLocation, kind: TokenizingErrorKind) -> (r:
        Error)
        ensures
            r@ == (SpecError::Tokenizing { path: path@, location, kind }),
    {
        Error::Tokenizing { path, location, kind }
    }

    /// A grammar error at the given position.
    pub fn parse_error(path: String, location: FileLocation, kind: ParseErrorKind) -> (r: Error)
        ensures
            r@ == (SpecError::Parse { path: path@, location, kind }),
    {
        Error::Parse { path, location, kind }
    }
}

} // verus!
