//! The failures of a run, each with its kind and its message.

use vstd::prelude::*;
use vstd::string::*;

verus! {

/// What went wrong, as a closed set of kinds.
#[derive(Debug, Clone, Copy, PartialEq, Eq, Structural)]
pub enum ErrorKind {
    /// The arguments do not fit together, or name a file that is not there.
    CommandLine,
    /// A coordinate is not a non-negative integer of 64 bits.
    Parsing,
    /// A file is there but cannot be decoded as an image.
    ImageFormat,
    /// The output file could not be written.
    Io,
}

impl ErrorKind {
    /// The kind's name as it is shown to the user.
    pub open spec fn spec_name(&self) -> Seq<char> {
        match self {
            ErrorKind::CommandLine => "command-line"@,
            ErrorKind::Parsing => "parsing"@,
            ErrorKind::ImageFormat => "image-format"@,
            ErrorKind::Io => "io"@,
        }
    }

    /// The kind's name as it is shown to the user.
    pub fn name(&self) -> (text: String)
        ensures
            text@ == self.spec_name(),
    {
        match self {
            ErrorKind::CommandLine => String::from_str("command-line"),
            ErrorKind::Parsing => String::from_str("parsing"),
            ErrorKind::ImageFormat => String::from_str("image-format"),
            ErrorKind::Io => String::from_str("io"),
        }
    }
}

/// A failure: its kind and a message for the user.
#[derive(Debug, Clone)]
pub struct StitchError {
    pub kind: ErrorKind,
    pub message: String,
}

impl StitchError {
    /// This error has the given kind and carries exactly the given message.
    pub open spec fn carries(&self, kind: ErrorKind, message: Seq<char>) -> bool {
        self.kind == kind && self.message@ == message
    }

    /// A failure of the given kind with the given message.
    pub fn new(kind: ErrorKind, message: String) -> (error: StitchError)
        ensures
            error.carries(kind, message@),
    {
        StitchError { kind, message }
    }

    /// The failure to decode an input, carrying the decoder's description.
    pub fn image_format(description: String) -> (error: StitchError)
        ensures
            error.carries(ErrorKind::ImageFormat, description@),
    {
        StitchError { kind: ErrorKind::ImageFormat, message: description }
    }

    /// The failure to write the output, carrying the writer's description.
    pub fn io(description: String) -> (error: StitchError)
        ensures
            error.carries(ErrorKind::Io, description@),
    {
        StitchError { kind: ErrorKind::Io, message: description }
    }
}

} // verus!
