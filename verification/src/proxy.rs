//! The per-request state of the filter: the decision that is taken once,
//! when the headers are at hand, the rewriting of the headers that goes with
//! it, and the passage of each body chunk through the codec that was chosen.
use crate::buffer::{bytes_as_slice, bytes_view};
use crate::clock::{duration_nanos, duration_new};
use crate::compress::{
    gunzip_output, gzip_output, unzstd_output, zstd_output, Compressor, Decompressor, Encode,
    ZstdCompressor, ZstdDecompressor,
};
use crate::config::Config;
use crate::error::DecodeError;
use crate::format::Format;
use crate::headers::{apply_all, changes_of, key, same_bytes, vec_of, Change, Edit, Headers};
use crate::transcript::{clip, Transcript};
use bytes::Bytes;
use std::time::Duration;
use vstd::prelude::*;
use vstd::string::StringSliceAdditionalSpecFns;

verus! {

/// Names the format of the body.
pub const CONTENT_ENCODING: &'static str = "content-encoding";

/// Gives the length of the body where it is known ahead.
pub const CONTENT_LENGTH: &'static str = "content-length";

/// Says, with `chunked`, that the length of the body is not known ahead.
pub const TRANSFER_ENCODING: &'static str = "transfer-encoding";

/// Names the format in which an answer is welcome.
pub const ACCEPT_ENCODING: &'static str = "accept-encoding";

/// Carries the length of the plain body between the two proxies of a
/// pair, while the body travels compressed.
pub const INTERNAL_CONTENT_LENGTH: &'static str = "x-internal-content-length";

/// The value of `transfer-encoding` for a body of unknown length.
pub const CHUNKED: &'static str = "chunked";

/// The quality level at which bodies are compressed to gzip.
pub const GZIP_LEVEL: u32 = 6;

/// The quality level at which bodies are compressed to zstd.
pub const ZSTD_LEVEL: i32 = 6;

/// What is done to the body of a request.
#[derive(Clone, Copy, Debug, PartialEq, Eq, Structural)]
pub enum Op {
    /// Nothing has been decided, and the body passes as it is.
    Undecided,
    /// The body is compressed.
    Compress,
    /// The body is decompressed.
    Decompress,
}

/// The compressor of one request, of either format.
pub enum Compreessor0 {
    Gzip(Compressor),
    Zstd(ZstdCompressor),
}

impl View for Compreessor0 {
    type V = Transcript;

    open spec fn view(&self) -> Transcript {
        match self {
            Compreessor0::Gzip(c) => c@,
            Compreessor0::Zstd(c) => c@,
        }
    }
}

/// The bytes that a compressor of `format` with transcript `t` gives back
/// for `chunk`, the last one if `end`.
pub open spec fn compressed(format: Format, t: Transcript, chunk: Seq<u8>, end: bool) -> Seq<u8> {
    match format {
        Format::Gzip => gzip_output(t.level as u32, t.fed, chunk, end),
        Format::Zstd => zstd_output(t.level as i32, t.fed, chunk, end),
    }
}

impl Compreessor0 {
    /// What holds of the compressor between calls.
    pub open spec fn inv(&self) -> bool {
        match self {
            Compreessor0::Gzip(c) => c.inv(),
            Compreessor0::Zstd(c) => c.inv(),
        }
    }

    /// The format that the compressor writes.
    pub open spec fn format(&self) -> Format {
        match self {
            Compreessor0::Gzip(_) => Format::Gzip,
            Compreessor0::Zstd(_) => Format::Zstd,
        }
    }

    /// The time that the compressor has spent on its chunks so far.
    pub open spec fn spent(&self) -> Duration {
        match self {
            Compreessor0::Gzip(c) => c.spent(),
            Compreessor0::Zstd(c) => c.spent(),
        }
    }

    /// Compresses one chunk with the compressor that is held, the last one
    /// if `end`.
    pub fn encode(&mut self, input: &[u8], end: bool) -> (out: Bytes)
        requires
            old(self).inv(),
            !old(self)@.closed,
        ensures
            final(self).inv(),
            final(self).format() == old(self).format(),
            bytes_view(out) == compressed(old(self).format(), old(self)@, input@, end),
            final(self)@ == old(self)@.after(input@, end, bytes_view(out)),
            duration_nanos(final(self).spent()) >= duration_nanos(old(self).spent()),
    {
        match self {
            Compreessor0::Gzip(compressor) => compressor.transform(input, end),
            Compreessor0::Zstd(zstd_compressor) => zstd_compressor.transform(input, end),
        }
    }
}

/// The decompressor of one request, of either format.
pub enum Decompreessor0 {
    Gzip(Decompressor),
    Zstd(ZstdDecompressor),
}

impl View for Decompreessor0 {
    type V = Transcript;

    open spec fn view(&self) -> Transcript {
        match self {
            Decompreessor0::Gzip(d) => d@,
            Decompreessor0::Zstd(d) => d@,
        }
    }
}

/// The bytes that a decompressor of `format` with transcript `t` gives back
/// for `chunk`, the last one if `end`; `None` where it rejects the chunk.
pub open spec fn decompressed(format: Format, t: Transcript, chunk: Seq<u8>, end: bool) -> Option<
    Seq<u8>,
> {
    match format {
        Format::Gzip => gunzip_output(t.fed, chunk, end),
        Format::Zstd => unzstd_output(t.fed, chunk, end),
    }
}

impl Decompreessor0 {
    /// What holds of the decompressor between calls.
    pub open spec fn inv(&self) -> bool {
        match self {
            Decompreessor0::Gzip(d) => d.inv(),
            Decompreessor0::Zstd(d) => d.inv(),
        }
    }

    /// The format that the decompressor reads.
    pub open spec fn format(&self) -> Format {
        match self {
            Decompreessor0::Gzip(_) => Format::Gzip,
            Decompreessor0::Zstd(_) => Format::Zstd,
        }
    }

    /// The time that the decompressor has spent on its chunks so far.
    pub open spec fn spent(&self) -> Duration {
        match self {
            Decompreessor0::Gzip(d) => d.spent(),
            Decompreessor0::Zstd(d) => d.spent(),
        }
    }

    /// Decompresses one chunk with the decompressor that is held, the last
    /// one if `end`.
    pub fn encode(&mut self, input: &[u8], end: bool) -> (r: Result<Bytes, DecodeError>)
        requires
            old(self).inv(),
            !old(self)@.closed,
        ensures
            final(self).inv(),
            final(self).format() == old(self).format(),
            match r {
                Ok(out) => {
                    &&& decompressed(old(self).format(), old(self)@, input@, end) == Some(
                        bytes_view(out),
                    )
                    &&& final(self)@ == old(self)@.after(input@, end, bytes_view(out))
                },
                Err(e) => {
                    &&& decompressed(old(self).format(), old(self)@, input@, end) is None
                    &&& final(self)@ == old(self)@.failed()
                    &&& e.format() == old(self).format()
                },
            },
            duration_nanos(final(self).spent()) >= duration_nanos(old(self).spent()),
            r is Err ==> final(self).spent() == old(self).spent(),
    {
        match self {
            Decompreessor0::Gzip(compressor) => compressor.transform(input, end),
            Decompreessor0::Zstd(zstd_compressor) => zstd_compressor.transform(input, end),
        }
    }
}

/// What a request's context holds, as contracts speak of it.
pub enum Held {
    /// Nothing is decided yet.
    Nothing,
    /// The body is compressed to the format, by a codec with the
    /// transcript.
    Compressing(Format, Transcript),
    /// The body is decompressed from the format, by a codec with the
    /// transcript.
    Decompressing(Format, Transcript),
}

impl Held {
    /// Whether the codec that is held takes no further chunk.
    pub open spec fn closed(self) -> bool {
        match self {
            Held::Nothing => false,
            Held::Compressing(_, t) => t.closed,
            Held::Decompressing(_, t) => t.closed,
        }
    }
}

/// The state of the filter for one request.
pub struct ProxyCtx {
    op: Op,
    compressor: Option<Compreessor0>,
    decompressor: Option<Decompreessor0>,
}

impl View for ProxyCtx {
    type V = Held;

    closed spec fn view(&self) -> Held {
        match self.op {
            Op::Undecided => Held::Nothing,
            Op::Compress => Held::Compressing(self.compressor->0.format(), self.compressor->0@),
            Op::Decompress => Held::Decompressing(
                self.decompressor->0.format(),
                self.decompressor->0@,
            ),
        }
    }
}

impl ProxyCtx {
    /// What holds of the context between calls: it holds the codec that its
    /// decision asks for, and never two.
    pub closed spec fn inv(&self) -> bool {
        match self.op {
            Op::Undecided => self.compressor is None && self.decompressor is None,
            Op::Compress => {
                &&& self.compressor is Some
                &&& self.compressor->0.inv()
                &&& self.decompressor is None
            },
            Op::Decompress => {
                &&& self.decompressor is Some
                &&& self.decompressor->0.inv()
                &&& self.compressor is None
            },
        }
    }

    /// The time that the codec which is held has spent on its chunks so
    /// far; `None` where none is held.
    pub closed spec fn spent(&self) -> Option<Duration> {
        match self.op {
            Op::Undecided => None,
            Op::Compress => Some(self.compressor->0.spent()),
            Op::Decompress => Some(self.decompressor->0.spent()),
        }
    }

    /// What is done to the body.
    pub fn op(&self) -> (op: Op)
        ensures
            op == (match self@ {
                Held::Nothing => Op::Undecided,
                Held::Compressing(_, _) => Op::Compress,
                Held::Decompressing(_, _) => Op::Decompress,
            }),
    {
        self.op
    }

    /// The format of the codec that is held, if one is.
    pub fn format(&self) -> (f: Option<Format>)
        requires
            self.inv(),
        ensures
            f == (match self@ {
                Held::Nothing => None,
                Held::Compressing(format, _) => Some(format),
                Held::Decompressing(format, _) => Some(format),
            }),
    {
        match self.op {
            Op::Undecided => None,
            Op::Compress => match &self.compressor {
                Some(Compreessor0::Gzip(_)) => Some(Format::Gzip),
                Some(Compreessor0::Zstd(_)) => Some(Format::Zstd),
                None => None,
            },
            Op::Decompress => match &self.decompressor {
                Some(Decompreessor0::Gzip(_)) => Some(Format::Gzip),
                Some(Decompreessor0::Zstd(_)) => Some(Format::Zstd),
                None => None,
            },
        }
    }

    /// Whether the codec that is held takes no further chunk. A context that
    /// holds none is never closed.
    pub fn is_closed(&self) -> (b: bool)
        requires
            self.inv(),
        ensures
            b == self@.closed(),
    {
        match self.op {
            Op::Undecided => false,
            Op::Compress => match &self.compressor {
                Some(Compreessor0::Gzip(c)) => c.is_closed(),
                Some(Compreessor0::Zstd(c)) => c.is_closed(),
                None => false,
            },
            Op::Decompress => match &self.decompressor {
                Some(Decompreessor0::Gzip(d)) => d.is_closed(),
                Some(Decompreessor0::Zstd(d)) => d.is_closed(),
                None => false,
            },
        }
    }

    /// The name of the codec that is held, the bytes that it has taken in,
    /// the bytes that it has given back and the time that it has spent, if
    /// one is held.
    pub fn stat(&self) -> (s: Option<(&'static str, usize, usize, std::time::Duration)>)
        requires
            self.inv(),
        ensures
            match self@ {
                Held::Nothing => s is None,
                Held::Compressing(format, t) => {
                    &&& s matches Some(r)
                    &&& r.0@ == format.spec_name()
                    &&& r.1 == clip(t.bytes_in())
                    &&& r.2 == clip(t.bytes_out())
                    &&& self.spent() == Some(r.3)
                },
                Held::Decompressing(format, t) => {
                    &&& s matches Some(r)
                    &&& r.0@ == "de-"@ + format.spec_name()
                    &&& r.1 == clip(t.bytes_in())
                    &&& r.2 == clip(t.bytes_out())
                    &&& self.spent() == Some(r.3)
                },
            },
    {
        proof {
            reveal_strlit("de-");
            reveal_strlit("gzip");
            reveal_strlit("zstd");
            reveal_strlit("de-gzip");
            reveal_strlit("de-zstd");
            assert("de-"@ + "gzip"@ =~= "de-gzip"@);
            assert("de-"@ + "zstd"@ =~= "de-zstd"@);
        }
        match self.op {
            Op::Undecided => None,
            Op::Compress => match &self.compressor {
                Some(Compreessor0::Gzip(c)) => Some(c.stat()),
                Some(Compreessor0::Zstd(c)) => Some(c.stat()),
                None => None,
            },
            Op::Decompress => match &self.decompressor {
                Some(Decompreessor0::Gzip(d)) => Some(d.stat()),
                Some(Decompreessor0::Zstd(d)) => Some(d.stat()),
                None => None,
            },
        }
    }
}

/// The format that the value of a `content-encoding` field names: gzip or
/// zstd where the value is its token, and the format `configured` for any
/// other value.
pub open spec fn observed_format(value: Seq<u8>, configured: Format) -> Format {
    if value == Format::Gzip.token() {
        Format::Gzip
    } else if value == Format::Zstd.token() {
        Format::Zstd
    } else {
        configured
    }
}

/// The headers of a request that is sent on compressed to `format`. The
/// length of the body moves from `content-length` to the side channel,
/// `content-encoding` names the format, and `transfer-encoding` says that
/// the length is not known ahead.
pub open spec fn compress_rewrite(h: Map<Seq<u8>, Seq<u8>>, format: Format) -> Map<
    Seq<u8>,
    Seq<u8>,
> {
    let moved = if h.contains_key(key(CONTENT_LENGTH)) {
        h.remove(key(CONTENT_LENGTH)).insert(key(INTERNAL_CONTENT_LENGTH), h[key(CONTENT_LENGTH)])
    } else {
        h
    };
    moved.insert(key(CONTENT_ENCODING), format.token()).insert(
        key(TRANSFER_ENCODING),
        CHUNKED.spec_bytes(),
    )
}

/// The headers of a request that is sent on decompressed from `format`.
/// `accept-encoding` asks for the format; and where the side channel gives
/// the length of the plain body, the length moves back to
/// `content-length`, and `transfer-encoding` goes.
pub open spec fn decompress_rewrite(h: Map<Seq<u8>, Seq<u8>>, format: Format) -> Map<
    Seq<u8>,
    Seq<u8>,
> {
    let asked = h.insert(key(ACCEPT_ENCODING), format.token());
    if asked.contains_key(key(INTERNAL_CONTENT_LENGTH)) {
        asked.remove(key(INTERNAL_CONTENT_LENGTH)).insert(
            key(CONTENT_LENGTH),
            asked[key(INTERNAL_CONTENT_LENGTH)],
        ).remove(key(TRANSFER_ENCODING))
    } else {
        asked
    }
}

/// The changes that bring the headers `h` into the form in which the
/// request is sent on compressed to `format`, in the order in which they
/// are made.
pub open spec fn compress_changes(h: Map<Seq<u8>, Seq<u8>>, format: Format) -> Seq<Change> {
    let moved = if h.contains_key(key(CONTENT_LENGTH)) {
        seq![
            Change::Remove(key(CONTENT_LENGTH)),
            Change::Put(key(INTERNAL_CONTENT_LENGTH), h[key(CONTENT_LENGTH)]),
        ]
    } else {
        Seq::<Change>::empty()
    };
    moved + seq![
        Change::Put(key(CONTENT_ENCODING), format.token()),
        Change::Put(key(TRANSFER_ENCODING), CHUNKED.spec_bytes()),
    ]
}

/// The changes that bring the headers `h` into the form in which the
/// request is sent on decompressed from `format`, in the order in which
/// they are made.
pub open spec fn decompress_changes(h: Map<Seq<u8>, Seq<u8>>, format: Format) -> Seq<Change> {
    let asked = seq![Change::Put(key(ACCEPT_ENCODING), format.token())];
    if h.contains_key(key(INTERNAL_CONTENT_LENGTH)) {
        asked + seq![
            Change::Remove(key(INTERNAL_CONTENT_LENGTH)),
            Change::Put(key(CONTENT_LENGTH), h[key(INTERNAL_CONTENT_LENGTH)]),
            Change::Remove(key(TRANSFER_ENCODING)),
        ]
    } else {
        asked
    }
}

/// The changes of either side, made one after the other, give the rewritten
/// headers.
pub proof fn lemma_changes_rewrite(h: Map<Seq<u8>, Seq<u8>>, format: Format)
    ensures
        apply_all(h, compress_changes(h, format)) == compress_rewrite(h, format),
        apply_all(h, decompress_changes(h, format)) == decompress_rewrite(h, format),
{
    lemma_field_keys();
    reveal_with_fuel(apply_all, 5);
    let c = compress_changes(h, format);
    if h.contains_key(key(CONTENT_LENGTH)) {
        assert(c.len() == 4);
        assert(c.drop_last().len() == 3);
        assert(c.drop_last().drop_last().len() == 2);
        assert(c.drop_last().drop_last().drop_last().len() == 1);
        assert(c.drop_last().drop_last().drop_last().drop_last().len() == 0);
    } else {
        assert(c.len() == 2);
        assert(c.drop_last().len() == 1);
        assert(c.drop_last().drop_last().len() == 0);
    }
    let d = decompress_changes(h, format);
    if h.contains_key(key(INTERNAL_CONTENT_LENGTH)) {
        assert(d.len() == 4);
        assert(d.drop_last().len() == 3);
        assert(d.drop_last().drop_last().len() == 2);
        assert(d.drop_last().drop_last().drop_last().len() == 1);
        assert(d.drop_last().drop_last().drop_last().drop_last().len() == 0);
    } else {
        assert(d.len() == 1);
        assert(d.drop_last().len() == 0);
    }
    assert(apply_all(h, c) =~= compress_rewrite(h, format));
    assert(apply_all(h, d) =~= decompress_rewrite(h, format));
}

/// The five fields that the protocol touches have five different keys, and
/// the two formats two different tokens.
pub proof fn lemma_field_keys()
    ensures
        key(CONTENT_ENCODING) != key(CONTENT_LENGTH),
        key(CONTENT_ENCODING) != key(TRANSFER_ENCODING),
        key(CONTENT_ENCODING) != key(ACCEPT_ENCODING),
        key(CONTENT_ENCODING) != key(INTERNAL_CONTENT_LENGTH),
        key(CONTENT_LENGTH) != key(TRANSFER_ENCODING),
        key(CONTENT_LENGTH) != key(ACCEPT_ENCODING),
        key(CONTENT_LENGTH) != key(INTERNAL_CONTENT_LENGTH),
        key(TRANSFER_ENCODING) != key(ACCEPT_ENCODING),
        key(TRANSFER_ENCODING) != key(INTERNAL_CONTENT_LENGTH),
        key(ACCEPT_ENCODING) != key(INTERNAL_CONTENT_LENGTH),
        Format::Gzip.token() != Format::Zstd.token(),
{
    reveal_strlit("content-encoding");
    reveal_strlit("content-length");
    reveal_strlit("transfer-encoding");
    reveal_strlit("accept-encoding");
    reveal_strlit("x-internal-content-length");
    reveal_strlit("gzip");
    reveal_strlit("zstd");
    assert(vstd::utf8::is_ascii_chars("content-encoding"@));
    assert(vstd::utf8::is_ascii_chars("content-length"@));
    assert(vstd::utf8::is_ascii_chars("transfer-encoding"@));
    assert(vstd::utf8::is_ascii_chars("accept-encoding"@));
    assert(vstd::utf8::is_ascii_chars("x-internal-content-length"@));
    assert(vstd::utf8::is_ascii_chars("gzip"@));
    assert(vstd::utf8::is_ascii_chars("zstd"@));
    vstd::utf8::is_ascii_chars_encode_utf8("content-encoding"@);
    vstd::utf8::is_ascii_chars_encode_utf8("content-length"@);
    vstd::utf8::is_ascii_chars_encode_utf8("transfer-encoding"@);
    vstd::utf8::is_ascii_chars_encode_utf8("accept-encoding"@);
    vstd::utf8::is_ascii_chars_encode_utf8("x-internal-content-length"@);
    vstd::utf8::is_ascii_chars_encode_utf8("gzip"@);
    vstd::utf8::is_ascii_chars_encode_utf8("zstd"@);
    assert(key(CONTENT_ENCODING).len() == 16);
    assert(key(CONTENT_LENGTH).len() == 14);
    assert(key(TRANSFER_ENCODING).len() == 17);
    assert(key(ACCEPT_ENCODING).len() == 15);
    assert(key(INTERNAL_CONTENT_LENGTH).len() == 25);
    assert(Format::Gzip.token()[0] == 0x67);
    assert(Format::Zstd.token()[0] == 0x7a);
}

/// The token of a format names that format, whatever the proxy that reads
/// it is set to.
pub proof fn lemma_observed_token(sent: Format, configured: Format)
    ensures
        observed_format(sent.token(), configured) == sent,
{
    lemma_field_keys();
}

/// Header symmetry, on the compressing side: after the rewrite the request
/// carries `content-encoding` with the token of the format and
/// `transfer-encoding: chunked`; it carries no `content-length`, and a
/// length that it had carried stands in the side channel. No other field
/// is touched.
pub proof fn lemma_compress_rewrite(h: Map<Seq<u8>, Seq<u8>>, format: Format)
    ensures
        compress_rewrite(h, format).contains_key(key(CONTENT_ENCODING)),
        compress_rewrite(h, format)[key(CONTENT_ENCODING)] == format.token(),
        compress_rewrite(h, format).contains_key(key(TRANSFER_ENCODING)),
        compress_rewrite(h, format)[key(TRANSFER_ENCODING)] == CHUNKED.spec_bytes(),
        !compress_rewrite(h, format).contains_key(key(CONTENT_LENGTH)),
        h.contains_key(key(CONTENT_LENGTH)) ==> {
            &&& compress_rewrite(h, format).contains_key(key(INTERNAL_CONTENT_LENGTH))
            &&& compress_rewrite(h, format)[key(INTERNAL_CONTENT_LENGTH)] == h[key(
                CONTENT_LENGTH,
            )]
        },
        forall|k: Seq<u8>|
            k != key(CONTENT_ENCODING) && k != key(TRANSFER_ENCODING) && k != key(CONTENT_LENGTH)
                && k != key(INTERNAL_CONTENT_LENGTH) ==> {
                &&& #[trigger] compress_rewrite(h, format).contains_key(k) == h.contains_key(k)
                &&& compress_rewrite(h, format)[k] == h[k]
            },
{
    lemma_field_keys();
}

/// Header symmetry, on the decompressing side: where the request carries
/// the side channel, after the rewrite `content-length` holds the side
/// channel's value, and the side channel and `transfer-encoding` are gone.
/// Either way `accept-encoding` holds the token of the format, and no other
/// field is touched.
pub proof fn lemma_decompress_rewrite(h: Map<Seq<u8>, Seq<u8>>, format: Format)
    ensures
        decompress_rewrite(h, format).contains_key(key(ACCEPT_ENCODING)),
        decompress_rewrite(h, format)[key(ACCEPT_ENCODING)] == format.token(),
        h.contains_key(key(INTERNAL_CONTENT_LENGTH)) ==> {
            &&& decompress_rewrite(h, format).contains_key(key(CONTENT_LENGTH))
            &&& decompress_rewrite(h, format)[key(CONTENT_LENGTH)] == h[key(
                INTERNAL_CONTENT_LENGTH,
            )]
            &&& !decompress_rewrite(h, format).contains_key(key(TRANSFER_ENCODING))
            &&& !decompress_rewrite(h, format).contains_key(key(INTERNAL_CONTENT_LENGTH))
        },
        !h.contains_key(key(INTERNAL_CONTENT_LENGTH)) ==> decompress_rewrite(h, format)
            == h.insert(key(ACCEPT_ENCODING), format.token()),
        forall|k: Seq<u8>|
            k != key(ACCEPT_ENCODING) && k != key(TRANSFER_ENCODING) && k != key(CONTENT_LENGTH)
                && k != key(INTERNAL_CONTENT_LENGTH) ==> {
                &&& #[trigger] decompress_rewrite(h, format).contains_key(k) == h.contains_key(k)
                &&& decompress_rewrite(h, format)[k] == h[k]
            },
{
    lemma_field_keys();
}

/// The two proxies of a pair undo each other's framing. A request without
/// `content-encoding` that the first proxy rewrites for `sent`, and the
/// second for the format that it then reads, is decompressed from `sent`,
/// whatever the second is set to; a `content-length` that it had is back
/// with its value, and the side channel and `transfer-encoding` are gone.
pub proof fn lemma_paired_rewrite(h: Map<Seq<u8>, Seq<u8>>, sent: Format, configured: Format)
    requires
        !h.contains_key(key(CONTENT_ENCODING)),
    ensures
        compress_rewrite(h, sent).contains_key(key(CONTENT_ENCODING)),
        observed_format(compress_rewrite(h, sent)[key(CONTENT_ENCODING)], configured) == sent,
        h.contains_key(key(CONTENT_LENGTH)) ==> {
            let back = decompress_rewrite(compress_rewrite(h, sent), sent);
            &&& back.contains_key(key(CONTENT_LENGTH))
            &&& back[key(CONTENT_LENGTH)] == h[key(CONTENT_LENGTH)]
            &&& !back.contains_key(key(INTERNAL_CONTENT_LENGTH))
            &&& !back.contains_key(key(TRANSFER_ENCODING))
        },
        forall|k: Seq<u8>|
            k != key(CONTENT_ENCODING) && k != key(ACCEPT_ENCODING) && k != key(TRANSFER_ENCODING)
                && k != key(CONTENT_LENGTH) && k != key(INTERNAL_CONTENT_LENGTH) ==> {
                &&& #[trigger] decompress_rewrite(compress_rewrite(h, sent), sent).contains_key(k)
                    == h.contains_key(k)
                &&& decompress_rewrite(compress_rewrite(h, sent), sent)[k] == h[k]
            },
{
    lemma_field_keys();
    lemma_observed_token(sent, configured);
}

/// The bytes of a body chunk; a chunk that is not there has none.
pub open spec fn chunk_of(body: Option<Bytes>) -> Seq<u8> {
    match body {
        Some(b) => bytes_view(b),
        None => Seq::empty(),
    }
}

/// The proxy: its settings, and the format that it compresses to.
pub struct Proxy0 {
    pub config: Config,
    pub zstd: bool,
}

impl Proxy0 {
    /// The format that the proxy is set to.
    pub open spec fn spec_format(&self) -> Format {
        if self.zstd {
            Format::Zstd
        } else {
            Format::Gzip
        }
    }

    /// The format that the proxy is set to.
    #[verifier::when_used_as_spec(spec_format)]
    pub fn format(&self) -> (f: Format)
        ensures
            f == self.spec_format(),
    {
        if self.zstd {
            Format::Zstd
        } else {
            Format::Gzip
        }
    }

    /// The context of a new request.
    pub fn new_ctx(&self) -> (ctx: ProxyCtx)
        ensures
            ctx.inv(),
            ctx@ == Held::Nothing,
            ctx.spent() is None,
    {
        ProxyCtx { op: Op::Undecided, compressor: None, decompressor: None }
    }

    /// Decides what is done to the body of a request, once, and rewrites
    /// the request's headers to fit.
    ///
    /// A request without `content-encoding` is compressed to the format
    /// that the proxy is set to. A request with `content-encoding` comes
    /// from the other proxy of the pair and is decompressed, from the format
    /// that the field names. A context that has decided stays as it is, and
    /// so do the headers.
    ///
    /// The changes that were made to the headers are returned in the order
    /// in which they were made, for whoever keeps the headers in another
    /// form.
    pub fn upstream_request_filter(
        &self,
        upstream_request: &mut Headers,
        ctx: &mut ProxyCtx,
    ) -> (edits: Vec<Edit>)
        requires
            old(upstream_request).wf(),
            old(ctx).inv(),
        ensures
            final(upstream_request).wf(),
            final(ctx).inv(),
            final(upstream_request)@ == apply_all(old(upstream_request)@, changes_of(edits@)),
            old(ctx)@ != Held::Nothing ==> {
                &&& final(ctx)@ == old(ctx)@
                &&& final(ctx).spent() == old(ctx).spent()
                &&& final(upstream_request)@ == old(upstream_request)@
                &&& edits@.len() == 0
            },
            old(ctx)@ == Held::Nothing ==> final(ctx).spent() == Some(duration_new(0, 0)),
            old(ctx)@ == Held::Nothing && !old(upstream_request)@.contains_key(
                key(CONTENT_ENCODING),
            ) ==> {
                &&& final(ctx)@ == Held::Compressing(
                    self.format(),
                    Transcript::fresh(
                        match self.format() {
                            Format::Gzip => GZIP_LEVEL as int,
                            Format::Zstd => ZSTD_LEVEL as int,
                        },
                    ),
                )
                &&& final(upstream_request)@ == compress_rewrite(
                    old(upstream_request)@,
                    self.format(),
                )
                &&& changes_of(edits@) == compress_changes(old(upstream_request)@, self.format())
            },
            old(ctx)@ == Held::Nothing && old(upstream_request)@.contains_key(
                key(CONTENT_ENCODING),
            ) ==> {
                let format = observed_format(
                    old(upstream_request)@[key(CONTENT_ENCODING)],
                    self.format(),
                );
                &&& final(ctx)@ == Held::Decompressing(format, Transcript::fresh(0))
                &&& final(upstream_request)@ == decompress_rewrite(old(upstream_request)@, format)
                &&& changes_of(edits@) == decompress_changes(old(upstream_request)@, format)
            },
    {
        let mut edits: Vec<Edit> = Vec::new();
        match ctx.op {
            Op::Undecided => {},
            _ => {
                return edits;
            },
        }
        let ghost before = upstream_request@;
        proof {
            lemma_field_keys();
        }
        let observed = match upstream_request.get(CONTENT_ENCODING) {
            None => None,
            Some(value) => {
                if same_bytes(value.as_slice(), Format::Gzip.name().as_bytes()) {
                    Some(Format::Gzip)
                } else if same_bytes(value.as_slice(), Format::Zstd.name().as_bytes()) {
                    Some(Format::Zstd)
                } else {
                    Some(self.format())
                }
            },
        };
        match observed {
            None => {
                ctx.op = Op::Compress;

                if let Some(cl) = upstream_request.remove(CONTENT_LENGTH) {
                    upstream_request.insert(INTERNAL_CONTENT_LENGTH, cl.as_slice());
                    edits.push(Edit::Remove(CONTENT_LENGTH));
                    edits.push(Edit::Put(INTERNAL_CONTENT_LENGTH, cl));
                }
                if self.zstd {
                    let token = Format::Zstd.name().as_bytes();
                    upstream_request.insert(CONTENT_ENCODING, token);
                    edits.push(Edit::Put(CONTENT_ENCODING, vec_of(token)));
                    ctx.compressor = Some(Compreessor0::Zstd(ZstdCompressor::new(ZSTD_LEVEL)));
                } else {
                    let token = Format::Gzip.name().as_bytes();
                    upstream_request.insert(CONTENT_ENCODING, token);
                    edits.push(Edit::Put(CONTENT_ENCODING, vec_of(token)));
                    ctx.compressor = Some(Compreessor0::Gzip(Compressor::new(GZIP_LEVEL)));
                }

                upstream_request.insert(TRANSFER_ENCODING, CHUNKED.as_bytes());
                edits.push(Edit::Put(TRANSFER_ENCODING, vec_of(CHUNKED.as_bytes())));
                proof {
                    assert(changes_of(edits@) =~= compress_changes(before, self.format()));
                    lemma_changes_rewrite(before, self.format());
                }
            },
            Some(format) => {
                ctx.op = Op::Decompress;
                match format {
                    Format::Zstd => {
                        ctx.decompressor = Some(Decompreessor0::Zstd(ZstdDecompressor::new()));
                    },
                    Format::Gzip => {
                        ctx.decompressor = Some(Decompreessor0::Gzip(Decompressor::new()));
                    },
                }
                upstream_request.insert(ACCEPT_ENCODING, format.name().as_bytes());
                edits.push(Edit::Put(ACCEPT_ENCODING, vec_of(format.name().as_bytes())));

                if let Some(cl) = upstream_request.remove(INTERNAL_CONTENT_LENGTH) {
                    upstream_request.insert(CONTENT_LENGTH, cl.as_slice());
                    upstream_request.remove(TRANSFER_ENCODING);
                    edits.push(Edit::Remove(INTERNAL_CONTENT_LENGTH));
                    edits.push(Edit::Put(CONTENT_LENGTH, cl));
                    edits.push(Edit::Remove(TRANSFER_ENCODING));
                }
                proof {
                    assert(changes_of(edits@) =~= decompress_changes(before, format));
                    lemma_changes_rewrite(before, format);
                }
            },
        }
        edits
    }

    /// Takes one chunk of the body through the codec that the context
    /// holds, and puts what the codec gives back in the chunk's place. A
    /// chunk that is not there counts as an empty one. Where nothing is
    /// decided the chunk passes as it is; where a decompressor rejects the
    /// chunk, the chunk stays as it is and the error is returned.
    pub fn request_body_filter(
        &self,
        body: &mut Option<Bytes>,
        end: bool,
        ctx: &mut ProxyCtx,
    ) -> (r: Result<(), DecodeError>)
        requires
            old(ctx).inv(),
            !old(ctx)@.closed(),
        ensures
            final(ctx).inv(),
            old(ctx)@ == Held::Nothing ==> final(ctx).spent() is None,
            old(ctx)@ != Held::Nothing ==> {
                &&& old(ctx).spent() is Some
                &&& final(ctx).spent() is Some
                &&& duration_nanos(final(ctx).spent()->0) >= duration_nanos(old(ctx).spent()->0)
            },
            r is Err ==> final(ctx).spent() == old(ctx).spent(),
            match old(ctx)@ {
                Held::Nothing => {
                    &&& r is Ok
                    &&& *final(body) == *old(body)
                    &&& final(ctx)@ == old(ctx)@
                },
                Held::Compressing(format, t) => {
                    let out = compressed(format, t, chunk_of(*old(body)), end);
                    &&& r is Ok
                    &&& *final(body) is Some
                    &&& chunk_of(*final(body)) == out
                    &&& final(ctx)@ == Held::Compressing(
                        format,
                        t.after(chunk_of(*old(body)), end, out),
                    )
                },
                Held::Decompressing(format, t) => match decompressed(
                    format,
                    t,
                    chunk_of(*old(body)),
                    end,
                ) {
                    Some(out) => {
                        &&& r is Ok
                        &&& *final(body) is Some
                        &&& chunk_of(*final(body)) == out
                        &&& final(ctx)@ == Held::Decompressing(
                            format,
                            t.after(chunk_of(*old(body)), end, out),
                        )
                    },
                    None => {
                        &&& r matches Err(e) && e.format() == format
                        &&& *final(body) == *old(body)
                        &&& final(ctx)@ == Held::Decompressing(format, t.failed())
                    },
                },
            },
    {
        if let Some(compresser) = &mut ctx.compressor {
            let out = match &*body {
                Some(b) => compresser.encode(bytes_as_slice(b), end),
                None => compresser.encode(&[], end),
            };
            *body = Some(out);
        }
        if let Some(decompressor) = &mut ctx.decompressor {
            let out = match &*body {
                Some(b) => decompressor.encode(bytes_as_slice(b), end),
                None => decompressor.encode(&[], end),
            };
            match out {
                Ok(data) => {
                    *body = Some(data);
                },
                Err(e) => {
                    return Err(e);
                },
            }
        }
        Ok(())
    }
}

} // verus!
