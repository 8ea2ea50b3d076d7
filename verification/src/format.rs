//! The two stream formats.
use vstd::prelude::*;
use vstd::string::StringSliceAdditionalSpecFns;

verus! {

/// The two stream formats between which a deployment chooses.
#[derive(Clone, Copy, Debug, PartialEq, Eq, Structural)]
pub enum Format {
    Gzip,
    Zstd,
}

impl Format {
    /// The token that names the format in `content-encoding` and
    /// `accept-encoding`.
    pub open spec fn spec_name(self) -> Seq<char> {
        match self {
            Format::Gzip => "gzip"@,
            Format::Zstd => "zstd"@,
        }
    }

    /// The bytes of the token.
    pub open spec fn token(self) -> Seq<u8> {
        match self {
            Format::Gzip => "gzip".spec_bytes(),
            Format::Zstd => "zstd".spec_bytes(),
        }
    }

    /// The token that names the format in `content-encoding` and
    /// `accept-encoding`.
    pub fn name(self) -> (s: &'static str)
        ensures
            s@ == self.spec_name(),
            s.spec_bytes() == self.token(),
    {
        match self {
            Format::Gzip => "gzip",
            Format::Zstd => "zstd",
        }
    }
}

} // verus!
