//! Failure kinds reported by every decoding stage.

use vstd::prelude::*;

verus! {

/// Why a file was rejected.
#[derive(Clone, Copy, Debug, PartialEq, Eq, Structural)]
pub enum ErrorKind {
    /// The first eight bytes are absent or are not the magic prefix.
    BadMagic,
    /// A declared length or a fixed-width field extends past the end of the buffer.
    TruncatedInput,
    /// A header chunk whose payload is not exactly nine bytes long.
    MalformedHeader,
    /// More than one header chunk in one file.
    DuplicateHeader,
    /// No header chunk at validation time.
    MissingHeader,
    /// A pixel type outside `0..=3`.
    InvalidPixelType,
    /// A palette-indexed image without a palette.
    MissingPalette,
    /// Fewer raw-data bytes than width, height and pixel type call for.
    InsufficientData,
    /// A data byte that indexes past the end of the palette.
    PaletteIndexOutOfRange,
}

/// The reason text that goes with each kind.
pub open spec fn reason_text(kind: ErrorKind) -> Seq<char> {
    match kind {
        ErrorKind::BadMagic => "Invalid file format"@,
        ErrorKind::TruncatedInput => "Truncated input"@,
        ErrorKind::MalformedHeader => "Wrong header length"@,
        ErrorKind::DuplicateHeader => "Multiple headers"@,
        ErrorKind::MissingHeader => "Missing header"@,
        ErrorKind::InvalidPixelType => "Invalid pixel type"@,
        ErrorKind::MissingPalette => "Missing palette"@,
        ErrorKind::InsufficientData => "Insufficient data"@,
        ErrorKind::PaletteIndexOutOfRange => "Palette index out of range"@,
    }
}

/// The one-line diagnostic for a kind.
pub open spec fn error_text(kind: ErrorKind) -> Seq<char> {
    "Malformed file : type("@ + reason_text(kind) + ")"@
}

/// The single error type of the decoder. It carries the kind of the failure; the reason
/// string shown to the user is a function of the kind.
#[derive(Debug)]
pub struct MalformedFileError {
    kind: ErrorKind,
}

impl View for MalformedFileError {
    type V = ErrorKind;

    closed spec fn view(&self) -> ErrorKind {
        self.kind
    }
}

impl MalformedFileError {
    pub fn new(kind: ErrorKind) -> (e: Self)
        ensures
            e@ == kind,
    {
        Self { kind }
    }

    pub fn kind(&self) -> (k: ErrorKind)
        ensures
            k == self@,
    {
        self.kind
    }

    /// The reason string of this error.
    pub fn reason(&self) -> (s: String)
        ensures
            s@ == reason_text(self@),
    {
        let text: &str = match self.kind {
            ErrorKind::BadMagic => "Invalid file format",
            ErrorKind::TruncatedInput => "Truncated input",
            ErrorKind::MalformedHeader => "Wrong header length",
            ErrorKind::DuplicateHeader => "Multiple headers",
            ErrorKind::MissingHeader => "Missing header",
            ErrorKind::InvalidPixelType => "Invalid pixel type",
            ErrorKind::MissingPalette => "Missing palette",
            ErrorKind::InsufficientData => "Insufficient data",
            ErrorKind::PaletteIndexOutOfRange => "Palette index out of range",
        };
        text.to_owned()
    }

    /// The diagnostic line: the reason wrapped as `Malformed file : type(..)`.
    pub fn to_text(&self) -> (s: String)
        ensures
            s@ == error_text(self@),
    {
        let mut s = "Malformed file : type(".to_owned();
        let reason = self.reason();
        s.append(reason.as_str());
        s.append(")");
        s
    }
}

} // verus!
