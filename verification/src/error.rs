//! The one way in which transcoding fails.
use crate::format::Format;
use vstd::prelude::*;

verus! {

/// `std::io::Error`, which the decoders of `flate2` and `zstd` report. It is
/// carried along and never looked into.
#[verifier::external_type_specification]
#[verifier::external_body]
pub struct ExIoError(std::io::Error);

/// The input of a decompressor was not a stream of its format. The request
/// that it belongs to cannot go on.
#[derive(Debug)]
pub struct DecodeError {
    format: Format,
    cause: Option<std::io::Error>,
}

impl DecodeError {
    /// The error of a stream of `format`. `cause` is what the decoder
    /// reported; there is none where the decoder reported nothing and the
    /// stream ended before its end.
    pub(crate) fn new(format: Format, cause: Option<std::io::Error>) -> (e: DecodeError)
        ensures
            e.format() == format,
            e.cause() == cause,
    {
        DecodeError { format, cause }
    }

    /// The format that was expected.
    pub closed spec fn spec_format(&self) -> Format {
        self.format
    }

    /// The format that was expected.
    #[verifier::when_used_as_spec(spec_format)]
    pub fn format(&self) -> (f: Format)
        ensures
            f == self.format(),
    {
        self.format
    }

    /// Where the failure happened, in words.
    pub fn context(&self) -> (s: &'static str)
        ensures
            s@ == (match self.format() {
                Format::Gzip => "while decompress Gzip"@,
                Format::Zstd => "while decompress Zstd"@,
            }),
    {
        match self.format {
            Format::Gzip => "while decompress Gzip",
            Format::Zstd => "while decompress Zstd",
        }
    }

    /// The error that the decoder itself reported, and that this one was
    /// made from; `None` where the decoder reported none and the stream
    /// ended before its end.
    pub closed spec fn cause(&self) -> Option<std::io::Error> {
        self.cause
    }

    /// What the decoder itself reported: the error that this one was made
    /// from, handed on as it came, if there was one.
    pub fn into_cause(self) -> (cause: Option<std::io::Error>)
        ensures
            cause == self.cause(),
    {
        self.cause
    }
}

} // verus!
