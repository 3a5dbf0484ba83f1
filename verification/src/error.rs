//! The error type of every operation on an image.

use crate::text::push_decimal;
use vstd::prelude::*;
use vstd::string::StringExecFns;

verus! {

/// `std::io::Error`, the failure of a read. Nothing of its inside is known
/// here.
#[verifier::external_type_specification]
#[verifier::external_body]
pub struct ExIoError(std::io::Error);

/// The error type for operations on qcow2 images.
#[derive(Debug)]
pub enum Error {
    /// The underlying source of an image reported an I/O error, or ended
    /// before the bytes that were asked of it.
    Io(std::io::Error),
    /// The file being opened is not a qcow2 file.
    FileType,
    /// The file being opened has an unsupported version.
    Version(u32),
    /// A feature unsupported by this library was detected.
    UnsupportedFeature(String),
    /// An error was detected in a qcow2 file. The file may be corrupt.
    FileFormat(String),
    /// An internal error was detected, there must be a bug in this library.
    Internal(String),
}

/// What an [`Error`] says, with texts as sequences of characters and without
/// the detail of an I/O failure.
pub ghost enum ErrorView {
    Io,
    FileType,
    Version(u32),
    UnsupportedFeature(Seq<char>),
    FileFormat(Seq<char>),
    Internal(Seq<char>),
}

impl View for Error {
    type V = ErrorView;

    open spec fn view(&self) -> ErrorView {
        match *self {
            Error::Io(_) => ErrorView::Io,
            Error::FileType => ErrorView::FileType,
            Error::Version(v) => ErrorView::Version(v),
            Error::UnsupportedFeature(s) => ErrorView::UnsupportedFeature(s@),
            Error::FileFormat(s) => ErrorView::FileFormat(s@),
            Error::Internal(s) => ErrorView::Internal(s@),
        }
    }
}

impl ErrorView {
    /// The line that describes the error to a person. Of an I/O failure it
    /// is whatever the failure says of itself, which has no model here.
    pub open spec fn message(self) -> Seq<char> {
        match self {
            ErrorView::Io => Seq::empty(),
            ErrorView::FileType => "Not a qcow2 file"@,
            ErrorView::Version(v) => "Unsupported version "@ + crate::text::spec_decimal(v as nat),
            ErrorView::UnsupportedFeature(s) => "Unsupported feature: "@ + s,
            ErrorView::FileFormat(s) => "Malformed qcow2 file: "@ + s,
            ErrorView::Internal(s) => "Internal error: "@ + s,
        }
    }
}

/// A result with its failure, if it is one, as plain values.
pub open spec fn spec_result<T>(r: Result<T, Error>) -> Result<T, ErrorView> {
    match r {
        Ok(v) => Ok(v),
        Err(e) => Err(e@),
    }
}

/// `std::io::Error::new` with the kind `UnexpectedEof`, as the standard
/// library reports a read that could not fill its buffer. Nothing is
/// claimed of the value.
#[verifier::external_body]
pub(crate) fn unexpected_eof() -> std::io::Error {
    std::io::Error::new(std::io::ErrorKind::UnexpectedEof, "failed to fill whole buffer")
}

/// The `Display` text of a `std::io::Error`, through `format`. Nothing is
/// claimed of the text.
#[verifier::external_body]
fn io_error_text(e: &std::io::Error) -> String {
    format!("{}", e)
}

impl Error {
    /// Describes the error in one line.
    pub fn to_string(&self) -> (s: String)
        ensures
            !(self@ is Io) ==> s@ == self@.message(),
    {
        match self {
            Error::Io(e) => io_error_text(e),
            Error::FileType => String::from_str("Not a qcow2 file"),
            Error::Version(found) => {
                let mut s = String::from_str("Unsupported version ");
                push_decimal(&mut s, *found as u64);
                s
            },
            Error::UnsupportedFeature(feat) => {
                let mut s = String::from_str("Unsupported feature: ");
                s.append(feat.as_str());
                s
            },
            Error::FileFormat(err) => {
                let mut s = String::from_str("Malformed qcow2 file: ");
                s.append(err.as_str());
                s
            },
            Error::Internal(err) => {
                let mut s = String::from_str("Internal error: ");
                s.append(err.as_str());
                s
            },
        }
    }
}

impl From<std::io::Error> for Error {
    fn from(err: std::io::Error) -> (e: Error) {
        Error::Io(err)
    }
}

impl vstd::std_specs::convert::FromSpecImpl<std::io::Error> for Error {
    open spec fn obeys_from_spec() -> bool {
        true
    }

    open spec fn from_spec(err: std::io::Error) -> Error {
        Error::Io(err)
    }
}

} // verus!
