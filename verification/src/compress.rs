//! The four stream codecs: a compressor and a decompressor for each format.
//!
//! A codec takes the body of one request chunk by chunk and gives back, for
//! each chunk, the bytes that are ready by then. Which bytes those are is
//! the codec library's business and appears here by name only; what is
//! proved is that every byte the library emits is handed on exactly once and
//! in order, that the counters count, that a stream which stops before its
//! end is rejected, and that a closed codec is left alone.
use crate::buffer::{bytes_from_vec, bytes_view};
use crate::clock::{
    clock_elapsed, clock_now, duration_max_nanos, duration_nanos, duration_new, duration_sum,
    duration_zero,
};
use crate::error::DecodeError;
use crate::format::Format;
use crate::gzip::{
    begins_gzip, gunzip_finish, gunzip_write, gz_decoder_fed, gz_decoder_finished, gz_decoder_get_mut,
    gz_decoder_get_ref, gz_decoder_new, gz_decoder_pending, gz_decoder_try_finish,
    gz_decoder_write_all, gz_encoder_fed, gz_encoder_finished, gz_encoder_get_mut,
    gz_encoder_get_ref, gz_encoder_level, gz_encoder_new, gz_encoder_pending,
    gz_encoder_try_finish, gz_encoder_write_all, gzip_finish, gzip_write, GzipDecoder,
    GzipEncoder,
};
use crate::transcript::{clip, lemma_clip_step, lemma_total_len_push, Transcript};
use crate::zstd_stream::{
    unzstd_run, zstd_decoder_failed, zstd_decoder_new, zstd_decoder_run, zstd_decoder_runs,
    zstd_encoder_do_finish, zstd_encoder_fed, zstd_encoder_finished, zstd_encoder_get_mut,
    zstd_encoder_level, zstd_encoder_new, zstd_encoder_pending, zstd_encoder_write_all,
    zstd_finish, zstd_write, Run, ZstdEncoder,
};
use bytes::Bytes;
use std::time::Duration;
use vstd::prelude::*;
use vstd::slice::slice_subrange;
use zstd::stream::raw::Decoder;

verus! {

/// A compressor never reserves more than this for one chunk.
pub const MAX_INIT_COMPRESSED_BUF_SIZE: usize = 16 * 1024;

/// A decompressor reserves a multiple of the chunk only for chunks shorter
/// than this.
pub const MAX_INIT_COMPRESSED_SIZE_CAP: usize = 4 * 1024;

/// The growth that is expected of a short gzip chunk.
pub const ESTIMATED_COMPRESSION_RATIO: usize = 3;

/// The growth that is expected of a short zstd chunk.
pub const ESTIMATED_ZSTD_RATIO: usize = 2;

/// The highest quality level of a gzip compressor.
pub const MAX_GZIP_LEVEL: u32 = 9;

/// The room that a compressor reserves before it takes a chunk of `len`
/// bytes: the chunk's length, and never more than
/// `MAX_INIT_COMPRESSED_BUF_SIZE`.
pub open spec fn spec_compress_reserve(len: usize) -> usize {
    if len < MAX_INIT_COMPRESSED_BUF_SIZE {
        len
    } else {
        MAX_INIT_COMPRESSED_BUF_SIZE
    }
}

/// The room that a compressor reserves before it takes a chunk of `len`
/// bytes.
#[verifier::when_used_as_spec(spec_compress_reserve)]
pub fn compress_reserve(len: usize) -> (room: usize)
    ensures
        room == spec_compress_reserve(len),
{
    if len < MAX_INIT_COMPRESSED_BUF_SIZE {
        len
    } else {
        MAX_INIT_COMPRESSED_BUF_SIZE
    }
}

/// The growth that is expected of a short chunk of `format`.
pub open spec fn spec_expansion(format: Format) -> usize {
    match format {
        Format::Gzip => ESTIMATED_COMPRESSION_RATIO,
        Format::Zstd => ESTIMATED_ZSTD_RATIO,
    }
}

/// The room that a decompressor of `format` reserves before it takes a chunk
/// of `len` bytes: the expected growth for a chunk shorter than
/// `MAX_INIT_COMPRESSED_SIZE_CAP`, and the chunk's own length for any other,
/// so that a large chunk cannot make the buffer several times as large.
pub open spec fn spec_decompress_reserve(format: Format, len: usize) -> usize {
    if len < MAX_INIT_COMPRESSED_SIZE_CAP {
        (len * spec_expansion(format)) as usize
    } else {
        len
    }
}

/// The room that a decompressor of `format` reserves before it takes a chunk
/// of `len` bytes.
#[verifier::when_used_as_spec(spec_decompress_reserve)]
pub fn decompress_reserve(format: Format, len: usize) -> (room: usize)
    ensures
        room == spec_decompress_reserve(format, len),
        len < MAX_INIT_COMPRESSED_SIZE_CAP ==> room == len * spec_expansion(format),
{
    if len < MAX_INIT_COMPRESSED_SIZE_CAP {
        match format {
            Format::Gzip => len * ESTIMATED_COMPRESSION_RATIO,
            Format::Zstd => len * ESTIMATED_ZSTD_RATIO,
        }
    } else {
        len
    }
}

/// Takes everything out of `buf` and leaves it empty, with nothing
/// allocated.
fn drain(buf: &mut Vec<u8>) -> (data: Vec<u8>)
    ensures
        data@ == old(buf)@,
        final(buf)@ == Seq::<u8>::empty(),
{
    let mut data: Vec<u8> = Vec::new();
    core::mem::swap(buf, &mut data);
    data
}

/// A stream codec: it takes a body chunk by chunk and gives back the
/// transformed bytes that are ready after each.
pub trait Encode: View<V = Transcript> {
    /// What holds of the codec between calls.
    spec fn inv(&self) -> bool;

    /// The bytes that a codec with transcript `t` gives back for `chunk`, the
    /// last one if `end`; `None` where it rejects the chunk.
    spec fn outcome(t: Transcript, chunk: Seq<u8>, end: bool) -> Option<Seq<u8>>;

    /// The name under which the codec reports.
    spec fn label() -> Seq<char>;

    /// The bytes that stand in the codec's output buffer.
    spec fn buffered(&self) -> Seq<u8>;

    /// The time that the codec has spent on its chunks so far.
    spec fn spent(&self) -> Duration;

    /// Between calls the output buffer is empty: all that the codec has
    /// emitted has been given back, and nothing piles up from chunk to
    /// chunk.
    proof fn lemma_drained(&self)
        requires
            self.inv(),
        ensures
            self.buffered() == Seq::<u8>::empty(),
    ;

    /// Encode the input bytes. The `end` flag signals the end of the entire
    /// input, and makes the codec give back all that it still holds.
    fn encode(&mut self, input: &[u8], end: bool) -> (r: Result<Bytes, DecodeError>)
        requires
            old(self).inv(),
            !old(self)@.closed,
        ensures
            final(self).inv(),
            match r {
                Ok(out) => {
                    &&& Self::outcome(old(self)@, input@, end) == Some(bytes_view(out))
                    &&& final(self)@ == old(self)@.after(input@, end, bytes_view(out))
                },
                Err(_) => {
                    &&& Self::outcome(old(self)@, input@, end) is None
                    &&& final(self)@ == old(self)@.failed()
                },
            },
            input@.len() == 0 && !end ==> {
                &&& r matches Ok(out)
                &&& bytes_view(out).len() == 0
                &&& final(self)@ == old(self)@
            },
            clip(final(self)@.bytes_in()) >= clip(old(self)@.bytes_in()),
            clip(final(self)@.bytes_out()) >= clip(old(self)@.bytes_out()),
            duration_nanos(final(self).spent()) >= duration_nanos(old(self).spent()),
            r is Err ==> final(self).spent() == old(self).spent(),
    ;

    /// Return the codec's name, the total input bytes, the total output
    /// bytes and the total duration spent on encoding the data.
    fn stat(&self) -> (r: (&'static str, usize, usize, Duration))
        requires
            self.inv(),
        ensures
            r.0@ == Self::label(),
            r.1 == clip(self@.bytes_in()),
            r.2 == clip(self@.bytes_out()),
            r.3 == self.spent(),
    ;
}

/// The bytes that a gzip compressor of `level` gives back for `chunk` after
/// the chunks `fed`: what the encoder emits while the chunk is written, and,
/// if `end`, what it emits while the stream is finished. An empty chunk is
/// not written.
pub open spec fn gzip_output(level: u32, fed: Seq<Seq<u8>>, chunk: Seq<u8>, end: bool) -> Seq<u8> {
    let written = if chunk.len() == 0 {
        Seq::<u8>::empty()
    } else {
        gzip_write(level, fed, chunk)
    };
    let fed = if chunk.len() == 0 {
        fed
    } else {
        fed.push(chunk)
    };
    if end {
        written + gzip_finish(level, fed)
    } else {
        written
    }
}

/// For an empty chunk that is not the last one every codec gives back
/// nothing, and none rejects it.
pub proof fn lemma_empty_chunk(level: int, fed: Seq<Seq<u8>>)
    ensures
        gzip_output(level as u32, fed, Seq::empty(), false) == Seq::<u8>::empty(),
        zstd_output(level as i32, fed, Seq::empty(), false) == Seq::<u8>::empty(),
        gunzip_output(fed, Seq::empty(), false) == Some(Seq::<u8>::empty()),
        unzstd_output(fed, Seq::empty(), false) == Some(Seq::<u8>::empty()),
{
}

/// The gzip compressor.
pub struct Compressor {
    compress: GzipEncoder,
    total_in: usize,
    total_out: usize,
    duration: Duration,
    closed: bool,
    log: Ghost<Transcript>,
}

impl View for Compressor {
    type V = Transcript;

    closed spec fn view(&self) -> Transcript {
        self.log@
    }
}

impl Compressor {
    /// A compressor of quality `level`, from 0 (store) to 9 (smallest).
    pub fn new(level: u32) -> (c: Compressor)
        requires
            level <= MAX_GZIP_LEVEL,
        ensures
            c.inv(),
            c@ == Transcript::fresh(level as int),
            c.spent() == duration_new(0, 0),
    {
        Compressor {
            compress: gz_encoder_new(level),
            total_in: 0,
            total_out: 0,
            duration: duration_zero(),
            closed: false,
            log: Ghost(Transcript::fresh(level as int)),
        }
    }

    /// The number of bytes taken in so far.
    pub fn total_in(&self) -> (n: usize)
        requires
            self.inv(),
        ensures
            n == clip(self@.bytes_in()),
    {
        self.total_in
    }

    /// The number of bytes given back so far.
    pub fn total_out(&self) -> (n: usize)
        requires
            self.inv(),
        ensures
            n == clip(self@.bytes_out()),
    {
        self.total_out
    }

    /// Whether the stream was finished.
    pub fn is_closed(&self) -> (b: bool)
        requires
            self.inv(),
        ensures
            b == self@.closed,
    {
        self.closed
    }

    /// The output buffer, which is empty between calls: every byte that the
    /// encoder emitted has been given back.
    pub fn get_ref(&self) -> (buf: &Vec<u8>)
        requires
            self.inv(),
        ensures
            buf@ == self.buffered(),
            buf@ == Seq::<u8>::empty(),
    {
        proof {
            self.lemma_drained();
        }
        gz_encoder_get_ref(&self.compress)
    }

    /// Compresses one chunk, the last one if `end`. Compression cannot fail.
    pub fn transform(&mut self, input: &[u8], end: bool) -> (out: Bytes)
        requires
            old(self).inv(),
            !old(self)@.closed,
        ensures
            final(self).inv(),
            bytes_view(out) == gzip_output(old(self)@.level as u32, old(self)@.fed, input@, end),
            final(self)@ == old(self)@.after(input@, end, bytes_view(out)),
            input@.len() == 0 && !end ==> bytes_view(out).len() == 0 && final(self)@ == old(self)@,
            old(self)@.fed.len() == 0 && (input@.len() > 0 || end) ==> begins_gzip(bytes_view(out)),
            duration_nanos(final(self).spent()) >= duration_nanos(old(self).spent()),
    {
        let start = clock_now();
        let buf = gz_encoder_get_mut(&mut self.compress);
        buf.reserve(compress_reserve(input.len()));
        if input.len() > 0 {
            gz_encoder_write_all(&mut self.compress, input);
        }
        if end {
            gz_encoder_try_finish(&mut self.compress);
        }
        let data = drain(gz_encoder_get_mut(&mut self.compress));
        proof {
            lemma_total_len_push(self.log@.fed, input@);
            lemma_clip_step(self.log@.bytes_in(), input.len());
            lemma_clip_step(self.log@.bytes_out(), data.len());
        }
        self.total_in = self.total_in.saturating_add(input.len());
        self.total_out = self.total_out.saturating_add(data.len());
        self.closed = end;
        self.log = Ghost(self.log@.after(input@, end, data@));
        self.duration = duration_sum(self.duration, clock_elapsed(&start));
        bytes_from_vec(data)
    }
}

impl Encode for Compressor {
    closed spec fn inv(&self) -> bool {
        &&& self.closed == self.log@.closed
        &&& duration_nanos(self.duration) <= duration_max_nanos()
        &&& self.total_in == clip(self.log@.bytes_in())
        &&& self.total_out == clip(self.log@.bytes_out())
        &&& 0 <= self.log@.level <= MAX_GZIP_LEVEL
        &&& gz_encoder_pending(self.compress).len() == 0
        &&& !self.closed ==> {
            &&& !gz_encoder_finished(self.compress)
            &&& gz_encoder_fed(self.compress) == self.log@.fed
            &&& gz_encoder_level(self.compress) == self.log@.level
        }
    }

    open spec fn outcome(t: Transcript, chunk: Seq<u8>, end: bool) -> Option<Seq<u8>> {
        Some(gzip_output(t.level as u32, t.fed, chunk, end))
    }

    open spec fn label() -> Seq<char> {
        "gzip"@
    }

    closed spec fn buffered(&self) -> Seq<u8> {
        gz_encoder_pending(self.compress)
    }

    closed spec fn spent(&self) -> Duration {
        self.duration
    }

    proof fn lemma_drained(&self) {
        assert(self.buffered() =~= Seq::<u8>::empty());
    }

    // infallible because compression can take any data
    fn encode(&mut self, input: &[u8], end: bool) -> (r: Result<Bytes, DecodeError>)
        ensures
            r is Ok,
            old(self)@.fed.len() == 0 && (input@.len() > 0 || end) ==> begins_gzip(
                bytes_view(r->Ok_0),
            ),
    {
        proof {
            lemma_total_len_push(self@.fed, input@);
        }
        Ok(self.transform(input, end))
    }

    fn stat(&self) -> (r: (&'static str, usize, usize, Duration)) {
        ("gzip", self.total_in, self.total_out, self.duration)
    }
}

/// The bytes that a gzip decompressor gives back for `chunk` after the
/// chunks `fed`: what the decoder emits while the chunk is written, and, if
/// `end`, what it emits while the stream is finished; `None` where either
/// step rejects the input. An empty chunk is not written.
pub open spec fn gunzip_output(fed: Seq<Seq<u8>>, chunk: Seq<u8>, end: bool) -> Option<Seq<u8>> {
    let written = if chunk.len() == 0 {
        Some(Seq::<u8>::empty())
    } else {
        gunzip_write(fed, chunk)
    };
    let fed = if chunk.len() == 0 {
        fed
    } else {
        fed.push(chunk)
    };
    if written is None {
        None
    } else if !end {
        written
    } else if gunzip_finish(fed) is None {
        None
    } else {
        Some(written->0 + gunzip_finish(fed)->0)
    }
}

/// The gzip decompressor.
pub struct Decompressor {
    decompress: GzipDecoder,
    total_in: usize,
    total_out: usize,
    duration: Duration,
    closed: bool,
    log: Ghost<Transcript>,
}

impl View for Decompressor {
    type V = Transcript;

    closed spec fn view(&self) -> Transcript {
        self.log@
    }
}

impl Decompressor {
    /// A decompressor at the start of a stream.
    pub fn new() -> (d: Decompressor)
        ensures
            d.inv(),
            d@ == Transcript::fresh(0),
            d.spent() == duration_new(0, 0),
    {
        Decompressor {
            decompress: gz_decoder_new(),
            total_in: 0,
            total_out: 0,
            duration: duration_zero(),
            closed: false,
            log: Ghost(Transcript::fresh(0)),
        }
    }

    /// The number of bytes taken in so far.
    pub fn total_in(&self) -> (n: usize)
        requires
            self.inv(),
        ensures
            n == clip(self@.bytes_in()),
    {
        self.total_in
    }

    /// The number of bytes given back so far.
    pub fn total_out(&self) -> (n: usize)
        requires
            self.inv(),
        ensures
            n == clip(self@.bytes_out()),
    {
        self.total_out
    }

    /// Whether the stream was finished or its input rejected.
    pub fn is_closed(&self) -> (b: bool)
        requires
            self.inv(),
        ensures
            b == self@.closed,
    {
        self.closed
    }

    /// The output buffer, which is empty between calls: every byte that the
    /// decoder emitted has been given back, or thrown away with the chunk
    /// that was rejected.
    pub fn get_ref(&self) -> (buf: &Vec<u8>)
        requires
            self.inv(),
        ensures
            buf@ == self.buffered(),
            buf@ == Seq::<u8>::empty(),
    {
        proof {
            self.lemma_drained();
        }
        gz_decoder_get_ref(&self.decompress)
    }

    /// Closes the codec after the decoder has rejected its input. What the
    /// decoder had emitted of the rejected chunk is thrown away.
    fn reject(&mut self, cause: std::io::Error) -> (e: DecodeError)
        requires
            old(self).closed == old(self).log@.closed,
            old(self).total_in == clip(old(self).log@.bytes_in()),
            old(self).total_out == clip(old(self).log@.bytes_out()),
            old(self).log@.level == 0,
            duration_nanos(old(self).duration) <= duration_max_nanos(),
        ensures
            final(self).inv(),
            final(self)@ == old(self)@.failed(),
            final(self).spent() == old(self).spent(),
            e.format() == Format::Gzip,
            e.cause() == Some(cause),
    {
        let _ = drain(gz_decoder_get_mut(&mut self.decompress));
        self.closed = true;
        self.log = Ghost(self.log@.failed());
        DecodeError::new(Format::Gzip, Some(cause))
    }

    /// Decompresses one chunk, the last one if `end`. Input that is no gzip
    /// stream, or one that ends before its end, is rejected: the codec is
    /// then closed, and its counters stand as they stood.
    pub fn transform(&mut self, input: &[u8], end: bool) -> (r: Result<Bytes, DecodeError>)
        requires
            old(self).inv(),
            !old(self)@.closed,
        ensures
            final(self).inv(),
            match r {
                Ok(out) => {
                    &&& gunzip_output(old(self)@.fed, input@, end) == Some(bytes_view(out))
                    &&& final(self)@ == old(self)@.after(input@, end, bytes_view(out))
                },
                Err(e) => {
                    &&& gunzip_output(old(self)@.fed, input@, end) is None
                    &&& final(self)@ == old(self)@.failed()
                    &&& e.format() == Format::Gzip
                    &&& e.cause() is Some
                },
            },
            input@.len() == 0 && !end ==> {
                &&& r matches Ok(out)
                &&& bytes_view(out).len() == 0
                &&& final(self)@ == old(self)@
            },
            duration_nanos(final(self).spent()) >= duration_nanos(old(self).spent()),
            r is Err ==> final(self).spent() == old(self).spent(),
    {
        let start = clock_now();
        // cap the buf size amplification, there is a DoS risk of always allocate
        // 3x the memory of the input buffer
        let buf = gz_decoder_get_mut(&mut self.decompress);
        buf.reserve(decompress_reserve(Format::Gzip, input.len()));
        if input.len() > 0 {
            // write to vec will never fail, only possible error is that the input data
            // was not actually gzip compressed
            match gz_decoder_write_all(&mut self.decompress, input) {
                Ok(()) => {},
                Err(cause) => {
                    return Err(self.reject(cause));
                },
            }
        }
        if end {
            match gz_decoder_try_finish(&mut self.decompress) {
                Ok(()) => {},
                Err(cause) => {
                    return Err(self.reject(cause));
                },
            }
        }
        let data = drain(gz_decoder_get_mut(&mut self.decompress));
        proof {
            lemma_total_len_push(self.log@.fed, input@);
            lemma_clip_step(self.log@.bytes_in(), input.len());
            lemma_clip_step(self.log@.bytes_out(), data.len());
        }
        self.total_in = self.total_in.saturating_add(input.len());
        self.total_out = self.total_out.saturating_add(data.len());
        self.closed = end;
        self.log = Ghost(self.log@.after(input@, end, data@));
        self.duration = duration_sum(self.duration, clock_elapsed(&start));
        Ok(bytes_from_vec(data))
    }
}

impl Encode for Decompressor {
    closed spec fn inv(&self) -> bool {
        &&& self.closed == self.log@.closed
        &&& duration_nanos(self.duration) <= duration_max_nanos()
        &&& self.total_in == clip(self.log@.bytes_in())
        &&& self.total_out == clip(self.log@.bytes_out())
        &&& self.log@.level == 0
        &&& gz_decoder_pending(self.decompress).len() == 0
        &&& !self.closed ==> {
            &&& !gz_decoder_finished(self.decompress)
            &&& gz_decoder_fed(self.decompress) == self.log@.fed
        }
    }

    open spec fn outcome(t: Transcript, chunk: Seq<u8>, end: bool) -> Option<Seq<u8>> {
        gunzip_output(t.fed, chunk, end)
    }

    open spec fn label() -> Seq<char> {
        "de-gzip"@
    }

    closed spec fn buffered(&self) -> Seq<u8> {
        gz_decoder_pending(self.decompress)
    }

    closed spec fn spent(&self) -> Duration {
        self.duration
    }

    proof fn lemma_drained(&self) {
        assert(self.buffered() =~= Seq::<u8>::empty());
    }

    fn encode(&mut self, input: &[u8], end: bool) -> (r: Result<Bytes, DecodeError>)
        ensures
            r matches Err(e) ==> e.format() == Format::Gzip,
    {
        proof {
            lemma_total_len_push(self@.fed, input@);
        }
        self.transform(input, end)
    }

    fn stat(&self) -> (r: (&'static str, usize, usize, Duration)) {
        ("de-gzip", self.total_in, self.total_out, self.duration)
    }
}

// ====================== ZSTD Compressor ======================

/// The bytes that a zstd compressor of `level` gives back for `chunk` after
/// the chunks `fed`: what the encoder emits while the chunk is written, and,
/// if `end`, what it emits while the stream is finished. An empty chunk is
/// not written.
pub open spec fn zstd_output(level: i32, fed: Seq<Seq<u8>>, chunk: Seq<u8>, end: bool) -> Seq<u8> {
    let written = if chunk.len() == 0 {
        Seq::<u8>::empty()
    } else {
        zstd_write(level, fed, chunk)
    };
    let fed = if chunk.len() == 0 {
        fed
    } else {
        fed.push(chunk)
    };
    if end {
        written + zstd_finish(level, fed)
    } else {
        written
    }
}

/// The zstd compressor.
pub struct ZstdCompressor {
    compress: ZstdEncoder,
    total_in: usize,
    total_out: usize,
    duration: Duration,
    closed: bool,
    log: Ghost<Transcript>,
}

impl View for ZstdCompressor {
    type V = Transcript;

    closed spec fn view(&self) -> Transcript {
        self.log@
    }
}

impl ZstdCompressor {
    /// A compressor of quality `level`. zstd knows the levels 1 to 22, reads
    /// 0 as its default, and takes any other to the nearest level it knows.
    pub fn new(level: i32) -> (c: ZstdCompressor)
        ensures
            c.inv(),
            c@ == Transcript::fresh(level as int),
            c.spent() == duration_new(0, 0),
    {
        ZstdCompressor {
            compress: zstd_encoder_new(level),
            total_in: 0,
            total_out: 0,
            duration: duration_zero(),
            closed: false,
            log: Ghost(Transcript::fresh(level as int)),
        }
    }

    /// The number of bytes taken in so far.
    pub fn total_in(&self) -> (n: usize)
        requires
            self.inv(),
        ensures
            n == clip(self@.bytes_in()),
    {
        self.total_in
    }

    /// The number of bytes given back so far.
    pub fn total_out(&self) -> (n: usize)
        requires
            self.inv(),
        ensures
            n == clip(self@.bytes_out()),
    {
        self.total_out
    }

    /// Whether the stream was finished.
    pub fn is_closed(&self) -> (b: bool)
        requires
            self.inv(),
        ensures
            b == self@.closed,
    {
        self.closed
    }

    /// Compresses one chunk, the last one if `end`. Compression cannot fail.
    pub fn transform(&mut self, input: &[u8], end: bool) -> (out: Bytes)
        requires
            old(self).inv(),
            !old(self)@.closed,
        ensures
            final(self).inv(),
            bytes_view(out) == zstd_output(old(self)@.level as i32, old(self)@.fed, input@, end),
            final(self)@ == old(self)@.after(input@, end, bytes_view(out)),
            input@.len() == 0 && !end ==> bytes_view(out).len() == 0 && final(self)@ == old(self)@,
            duration_nanos(final(self).spent()) >= duration_nanos(old(self).spent()),
    {
        let start = clock_now();
        let buf = zstd_encoder_get_mut(&mut self.compress);
        buf.reserve(compress_reserve(input.len()));
        if input.len() > 0 {
            zstd_encoder_write_all(&mut self.compress, input);
        }
        if end {
            zstd_encoder_do_finish(&mut self.compress);
        }
        let data = drain(zstd_encoder_get_mut(&mut self.compress));
        proof {
            lemma_total_len_push(self.log@.fed, input@);
            lemma_clip_step(self.log@.bytes_in(), input.len());
            lemma_clip_step(self.log@.bytes_out(), data.len());
        }
        self.total_in = self.total_in.saturating_add(input.len());
        self.total_out = self.total_out.saturating_add(data.len());
        self.closed = end;
        self.log = Ghost(self.log@.after(input@, end, data@));
        self.duration = duration_sum(self.duration, clock_elapsed(&start));
        bytes_from_vec(data)
    }
}

impl Encode for ZstdCompressor {
    closed spec fn inv(&self) -> bool {
        &&& self.closed == self.log@.closed
        &&& duration_nanos(self.duration) <= duration_max_nanos()
        &&& self.total_in == clip(self.log@.bytes_in())
        &&& self.total_out == clip(self.log@.bytes_out())
        &&& i32::MIN <= self.log@.level <= i32::MAX
        &&& zstd_encoder_pending(self.compress).len() == 0
        &&& !self.closed ==> {
            &&& !zstd_encoder_finished(self.compress)
            &&& zstd_encoder_fed(self.compress) == self.log@.fed
            &&& zstd_encoder_level(self.compress) == self.log@.level
        }
    }

    open spec fn outcome(t: Transcript, chunk: Seq<u8>, end: bool) -> Option<Seq<u8>> {
        Some(zstd_output(t.level as i32, t.fed, chunk, end))
    }

    open spec fn label() -> Seq<char> {
        "zstd"@
    }

    closed spec fn buffered(&self) -> Seq<u8> {
        zstd_encoder_pending(self.compress)
    }

    closed spec fn spent(&self) -> Duration {
        self.duration
    }

    proof fn lemma_drained(&self) {
        assert(self.buffered() =~= Seq::<u8>::empty());
    }

    // infallible because compression can take any data
    fn encode(&mut self, input: &[u8], end: bool) -> (r: Result<Bytes, DecodeError>)
        ensures
            r is Ok,
    {
        proof {
            lemma_total_len_push(self@.fed, input@);
        }
        Ok(self.transform(input, end))
    }

    fn stat(&self) -> (r: (&'static str, usize, usize, Duration)) {
        ("zstd", self.total_in, self.total_out, self.duration)
    }
}

// ====================== ZSTD Decompressor ======================

/// The room that the zstd decoder is given for the output of one run.
pub const ZSTD_ROOM: usize = 32 * 1024;

/// Where a zstd decoder stands between chunks.
pub struct Stand {
    /// The runs that it has made.
    pub runs: Seq<Run>,
    /// Whether the last run left it at the end of a frame.
    pub at_end: bool,
}

/// What a zstd decoder has made of one chunk.
pub struct Driven {
    /// Where it stands after the chunk.
    pub stand: Stand,
    /// The bytes that it wrote for the chunk.
    pub out: Seq<u8>,
}

/// What becomes of a chunk of which `rest` is still to be taken, by a
/// decoder that has made the runs `runs` and has written `out` for the
/// chunk so far.
///
/// The decoder is run on what is left, with `ZSTD_ROOM` bytes of room, and
/// what it wrote is added to the output. The chunk is done when a run has
/// taken all that was left and holds nothing back: it has not filled the
/// room, or it stands at the end of a frame. Until then the decoder is run
/// again on what it left. `None` where a run reports an error, and where a
/// run that is not the last takes no byte and writes none.
pub open spec fn unzstd_drive(runs: Seq<Run>, rest: Seq<u8>, out: Seq<u8>) -> Option<Driven>
    decreases rest.len(), usize::MAX - out.len(),
{
    match unzstd_run(runs, rest, ZSTD_ROOM as nat) {
        None => None,
        Some(ran) => {
            let runs = runs.push(Run { input: rest, room: ZSTD_ROOM as nat });
            let out = out + ran.written;
            if ran.read > rest.len() || ran.written.len() > ZSTD_ROOM || out.len() > usize::MAX {
                None
            } else if ran.read == rest.len() && (ran.written.len() < ZSTD_ROOM || ran.hint == 0) {
                Some(Driven { stand: Stand { runs, at_end: ran.hint == 0 }, out })
            } else if ran.read == 0 && ran.written.len() == 0 {
                None
            } else {
                unzstd_drive(runs, rest.skip(ran.read as int), out)
            }
        },
    }
}

/// Where a zstd decoder stands after the chunks `fed`; `None` where it has
/// rejected one of them. A decoder that was fed nothing has made no run and
/// stands at the end of no frame.
pub open spec fn unzstd_stand(fed: Seq<Seq<u8>>) -> Option<Stand>
    decreases fed.len(),
{
    if fed.len() == 0 {
        Some(Stand { runs: Seq::empty(), at_end: false })
    } else {
        match unzstd_stand(fed.drop_last()) {
            None => None,
            Some(stand) => match unzstd_drive(stand.runs, fed.last(), Seq::empty()) {
                None => None,
                Some(driven) => Some(driven.stand),
            },
        }
    }
}

/// The bytes that a zstd decompressor gives back for `chunk` after the
/// chunks `fed`: what the decoder writes while it is run on the chunk;
/// `None` where the decoder rejects the chunk, and where the chunk is the
/// last one and does not leave the decoder at the end of a frame. An empty
/// chunk is not run.
pub open spec fn unzstd_output(fed: Seq<Seq<u8>>, chunk: Seq<u8>, end: bool) -> Option<Seq<u8>> {
    if chunk.len() == 0 && !end {
        Some(Seq::<u8>::empty())
    } else {
        match unzstd_stand(fed) {
            None => None,
            Some(stand) => {
                if chunk.len() == 0 {
                    if stand.at_end {
                        Some(Seq::<u8>::empty())
                    } else {
                        None
                    }
                } else {
                    match unzstd_drive(stand.runs, chunk, Seq::empty()) {
                        None => None,
                        Some(driven) => if end && !driven.stand.at_end {
                            None
                        } else {
                            Some(driven.out)
                        },
                    }
                }
            },
        }
    }
}

/// Adds the bytes of `from` to the end of `out`.
fn append(out: &mut Vec<u8>, from: &[u8])
    ensures
        final(out)@ == old(out)@ + from@,
{
    let mut i: usize = 0;
    while i < from.len()
        invariant
            i <= from@.len(),
            out@ == old(out)@ + from@.subrange(0, i as int),
        decreases from@.len() - i,
    {
        out.push(from[i]);
        assert(out@ =~= old(out)@ + from@.subrange(0, i + 1));
        i += 1;
    }
    assert(from@.subrange(0, from@.len() as int) =~= from@);
}

/// The zstd decompressor.
pub struct ZstdDecompressor {
    decompress: Decoder<'static>,
    scratch: Vec<u8>,
    frame_done: bool,
    total_in: usize,
    total_out: usize,
    duration: Duration,
    closed: bool,
    log: Ghost<Transcript>,
}

impl View for ZstdDecompressor {
    type V = Transcript;

    closed spec fn view(&self) -> Transcript {
        self.log@
    }
}

impl ZstdDecompressor {
    /// A decompressor at the start of a stream.
    pub fn new() -> (d: ZstdDecompressor)
        ensures
            d.inv(),
            d@ == Transcript::fresh(0),
            d.spent() == duration_new(0, 0),
    {
        let mut scratch: Vec<u8> = Vec::new();
        scratch.resize(ZSTD_ROOM, 0);
        ZstdDecompressor {
            decompress: zstd_decoder_new(),
            scratch,
            frame_done: false,
            total_in: 0,
            total_out: 0,
            duration: duration_zero(),
            closed: false,
            log: Ghost(Transcript::fresh(0)),
        }
    }

    /// The number of bytes taken in so far.
    pub fn total_in(&self) -> (n: usize)
        requires
            self.inv(),
        ensures
            n == clip(self@.bytes_in()),
    {
        self.total_in
    }

    /// The number of bytes given back so far.
    pub fn total_out(&self) -> (n: usize)
        requires
            self.inv(),
        ensures
            n == clip(self@.bytes_out()),
    {
        self.total_out
    }

    /// Whether the stream was finished or its input rejected.
    pub fn is_closed(&self) -> (b: bool)
        requires
            self.inv(),
        ensures
            b == self@.closed,
    {
        self.closed
    }

    /// What holds of the counters and the buffer at every moment, also while
    /// a chunk is under way.
    spec fn steady(&self) -> bool {
        &&& self.closed == self.log@.closed
        &&& duration_nanos(self.duration) <= duration_max_nanos()
        &&& self.total_in == clip(self.log@.bytes_in())
        &&& self.total_out == clip(self.log@.bytes_out())
        &&& self.log@.level == 0
        &&& self.scratch@.len() == ZSTD_ROOM
    }

    /// Closes the codec after its input was rejected. What the decoder had
    /// written of the rejected chunk is thrown away.
    fn reject(&mut self, cause: Option<std::io::Error>) -> (e: DecodeError)
        requires
            old(self).steady(),
        ensures
            final(self).inv(),
            final(self)@ == old(self)@.failed(),
            final(self).spent() == old(self).spent(),
            e.format() == Format::Zstd,
            e.cause() == cause,
    {
        self.closed = true;
        self.log = Ghost(self.log@.failed());
        DecodeError::new(Format::Zstd, cause)
    }

    /// Counts a chunk that the decoder has taken, and gives back what it
    /// wrote for the chunk.
    fn accept(
        &mut self,
        input: &[u8],
        end: bool,
        data: Vec<u8>,
        start: &std::time::Instant,
    ) -> (out: Bytes)
        requires
            old(self).steady(),
            !old(self).closed,
            !end ==> {
                &&& !zstd_decoder_failed(old(self).decompress)
                &&& unzstd_stand(old(self).log@.fed_with(input@)) == Some(
                    Stand {
                        runs: zstd_decoder_runs(old(self).decompress),
                        at_end: old(self).frame_done,
                    },
                )
            },
        ensures
            final(self).inv(),
            bytes_view(out) == data@,
            final(self)@ == old(self)@.after(input@, end, data@),
            duration_nanos(final(self).spent()) >= duration_nanos(old(self).spent()),
    {
        proof {
            lemma_total_len_push(self.log@.fed, input@);
            lemma_clip_step(self.log@.bytes_in(), input.len());
            lemma_clip_step(self.log@.bytes_out(), data.len());
        }
        self.total_in = self.total_in.saturating_add(input.len());
        self.total_out = self.total_out.saturating_add(data.len());
        self.closed = end;
        self.log = Ghost(self.log@.after(input@, end, data@));
        self.duration = duration_sum(self.duration, clock_elapsed(start));
        bytes_from_vec(data)
    }

    /// Decompresses one chunk, the last one if `end`. Input that is no zstd
    /// stream is rejected, and so is a last chunk that does not bring the
    /// stream to the end of a frame: the codec is then closed, and its
    /// counters stand as they stood.
    pub fn transform(&mut self, input: &[u8], end: bool) -> (r: Result<Bytes, DecodeError>)
        requires
            old(self).inv(),
            !old(self)@.closed,
        ensures
            final(self).inv(),
            match r {
                Ok(out) => {
                    &&& unzstd_output(old(self)@.fed, input@, end) == Some(bytes_view(out))
                    &&& final(self)@ == old(self)@.after(input@, end, bytes_view(out))
                },
                Err(e) => {
                    &&& unzstd_output(old(self)@.fed, input@, end) is None
                    &&& final(self)@ == old(self)@.failed()
                    &&& e.format() == Format::Zstd
                },
            },
            input@.len() == 0 && !end ==> {
                &&& r matches Ok(out)
                &&& bytes_view(out).len() == 0
                &&& final(self)@ == old(self)@
            },
            duration_nanos(final(self).spent()) >= duration_nanos(old(self).spent()),
            r is Err ==> final(self).spent() == old(self).spent(),
    {
        let start = clock_now();
        let ghost before = *self;
        let ghost runs = zstd_decoder_runs(self.decompress);
        let mut data: Vec<u8> = Vec::new();
        data.reserve(decompress_reserve(Format::Zstd, input.len()));
        if input.len() == 0 {
            if end && !self.frame_done {
                return Err(self.reject(None));
            }
            proof {
                assert(before.log@.emitted + data@ =~= before.log@.emitted);
            }
            return Ok(self.accept(input, end, data, &start));
        }
        let mut pos: usize = 0;
        let mut at_end: bool = false;
        proof {
            assert(input@.skip(0) =~= input@);
        }
        loop
            invariant_except_break
                pos <= input@.len(),
                unzstd_drive(zstd_decoder_runs(self.decompress), input@.skip(pos as int), data@)
                    == unzstd_drive(runs, input@, Seq::empty()),
            invariant
                self.steady(),
                !zstd_decoder_failed(self.decompress),
                self.log == before.log,
                self.duration == before.duration,
                self.frame_done == before.frame_done,
                !self.closed,
                input@.len() > 0,
                before == *old(self),
                unzstd_stand(self.log@.fed) == Some(Stand { runs, at_end: self.frame_done }),
            ensures
                unzstd_drive(runs, input@, Seq::empty()) == Some(
                    Driven {
                        stand: Stand { runs: zstd_decoder_runs(self.decompress), at_end },
                        out: data@,
                    },
                ),
            decreases input@.len() - pos, usize::MAX - data@.len(),
        {
            let rest = slice_subrange(input, pos, input.len());
            let ghost taken = data@;
            let ghost made = zstd_decoder_runs(self.decompress);
            proof {
                assert(rest@ =~= input@.skip(pos as int));
            }
            let status = match zstd_decoder_run(
                &mut self.decompress,
                rest,
                self.scratch.as_mut_slice(),
            ) {
                Ok(status) => status,
                Err(cause) => {
                    return Err(self.reject(Some(cause)));
                },
            };
            append(&mut data, slice_subrange(self.scratch.as_slice(), 0, status.bytes_written));
            let filled = data.len();
            proof {
                assert(rest@.skip(status.bytes_read as int) =~= input@.skip(
                    pos + status.bytes_read,
                ));
            }
            pos = pos + status.bytes_read;
            at_end = status.remaining == 0;
            if pos == input.len() && (status.bytes_written < ZSTD_ROOM || at_end) {
                break ;
            }
            if status.bytes_read == 0 && status.bytes_written == 0 {
                return Err(self.reject(None));
            }
        }
        if end && !at_end {
            return Err(self.reject(None));
        }
        self.frame_done = at_end;
        proof {
            assert(self.log@.fed.push(input@).drop_last() =~= self.log@.fed);
        }
        Ok(self.accept(input, end, data, &start))
    }
}

impl Encode for ZstdDecompressor {
    closed spec fn inv(&self) -> bool {
        &&& self.steady()
        &&& !self.closed ==> {
            &&& !zstd_decoder_failed(self.decompress)
            &&& unzstd_stand(self.log@.fed) == Some(
                Stand { runs: zstd_decoder_runs(self.decompress), at_end: self.frame_done },
            )
        }
    }

    open spec fn outcome(t: Transcript, chunk: Seq<u8>, end: bool) -> Option<Seq<u8>> {
        unzstd_output(t.fed, chunk, end)
    }

    open spec fn label() -> Seq<char> {
        "de-zstd"@
    }

    closed spec fn buffered(&self) -> Seq<u8> {
        Seq::empty()
    }

    closed spec fn spent(&self) -> Duration {
        self.duration
    }

    proof fn lemma_drained(&self) {
    }

    fn encode(&mut self, input: &[u8], end: bool) -> (r: Result<Bytes, DecodeError>)
        ensures
            r matches Err(e) ==> e.format() == Format::Zstd,
    {
        proof {
            lemma_total_len_push(self@.fed, input@);
        }
        self.transform(input, end)
    }

    fn stat(&self) -> (r: (&'static str, usize, usize, Duration)) {
        ("de-zstd", self.total_in, self.total_out, self.duration)
    }
}

} // verus!
