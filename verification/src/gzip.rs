//! The gzip streams of `flate2`, behind contracts that Verus takes on trust.
//!
//! An encoder or decoder is a state machine whose bytes are a matter for
//! `flate2`. The contracts here say which bytes are meant, by name, and how
//! the calls move them: into the codec, into its output buffer, and out.
use flate2::write::{GzDecoder, GzEncoder};
use flate2::Compression;
use std::io::Write;
use vstd::prelude::*;

verus! {

/// A `flate2::write::GzEncoder` over a byte buffer of its own.
#[verifier::external_body]
pub struct GzipEncoder {
    inner: GzEncoder<Vec<u8>>,
}

/// The compression level that the encoder was made with.
pub uninterp spec fn gz_encoder_level(e: GzipEncoder) -> u32;

/// The chunks written to the encoder since it was made, in order.
pub uninterp spec fn gz_encoder_fed(e: GzipEncoder) -> Seq<Seq<u8>>;

/// The bytes in the encoder's output buffer: emitted and not yet taken out.
pub uninterp spec fn gz_encoder_pending(e: GzipEncoder) -> Seq<u8>;

/// Whether the stream has been finished.
pub uninterp spec fn gz_encoder_finished(e: GzipEncoder) -> bool;

/// The bytes that a gzip encoder of level `level` hands to its output buffer
/// while `chunk` is written to it, after the chunks `before`.
pub uninterp spec fn gzip_write(level: u32, before: Seq<Seq<u8>>, chunk: Seq<u8>) -> Seq<u8>;

/// The bytes that a gzip encoder of level `level` hands to its output buffer
/// while its stream is finished, after the chunks `fed`.
pub uninterp spec fn gzip_finish(level: u32, fed: Seq<Seq<u8>>) -> Seq<u8>;

/// Whether `bytes` begin as every gzip stream does: with the two bytes of
/// the gzip magic number and the byte that names the deflate method.
pub open spec fn begins_gzip(bytes: Seq<u8>) -> bool {
    &&& bytes.len() >= 3
    &&& bytes[0] == 0x1f
    &&& bytes[1] == 0x8b
    &&& bytes[2] == 0x08
}

/// `GzEncoder::new` over an empty `Vec`, with `Compression::new(level)`.
/// The new encoder has been fed nothing and has emitted nothing. Levels run
/// from 0 to 9.
#[verifier::external_body]
pub(crate) fn gz_encoder_new(level: u32) -> (e: GzipEncoder)
    requires
        level <= 9,
    ensures
        gz_encoder_level(e) == level,
        gz_encoder_fed(e) == Seq::<Seq<u8>>::empty(),
        gz_encoder_pending(e) == Seq::<u8>::empty(),
        !gz_encoder_finished(e),
{
    GzipEncoder { inner: GzEncoder::new(Vec::new(), Compression::new(level)) }
}

/// `Write::write_all` on the encoder. The chunk joins what was fed, and what
/// the encoder emits meanwhile is appended to its buffer. The first bytes
/// that an encoder emits are the header of the stream. Writing fails only
/// where the buffer does, and a `Vec` accepts every write; a finished stream
/// takes no more input.
#[verifier::external_body]
pub(crate) fn gz_encoder_write_all(e: &mut GzipEncoder, chunk: &[u8])
    requires
        !gz_encoder_finished(*old(e)),
    ensures
        gz_encoder_fed(*old(e)).len() == 0 && chunk@.len() > 0 ==> begins_gzip(
            gzip_write(gz_encoder_level(*old(e)), gz_encoder_fed(*old(e)), chunk@),
        ),
        gz_encoder_level(*final(e)) == gz_encoder_level(*old(e)),
        gz_encoder_fed(*final(e)) == gz_encoder_fed(*old(e)).push(chunk@),
        !gz_encoder_finished(*final(e)),
        gz_encoder_pending(*final(e)) == gz_encoder_pending(*old(e)) + gzip_write(
            gz_encoder_level(*old(e)),
            gz_encoder_fed(*old(e)),
            chunk@,
        ),
{
    e.inner.write_all(chunk).unwrap()
}

/// `GzEncoder::try_finish`. What is still held back, and the trailer, are
/// appended to the buffer, and the stream is finished. Where nothing was
/// written before, the header of the stream comes first. Finishing fails
/// only where the buffer does.
#[verifier::external_body]
pub(crate) fn gz_encoder_try_finish(e: &mut GzipEncoder)
    requires
        !gz_encoder_finished(*old(e)),
    ensures
        gz_encoder_fed(*old(e)).len() == 0 ==> begins_gzip(
            gzip_finish(gz_encoder_level(*old(e)), gz_encoder_fed(*old(e))),
        ),
        gz_encoder_level(*final(e)) == gz_encoder_level(*old(e)),
        gz_encoder_fed(*final(e)) == gz_encoder_fed(*old(e)),
        gz_encoder_finished(*final(e)),
        gz_encoder_pending(*final(e)) == gz_encoder_pending(*old(e)) + gzip_finish(
            gz_encoder_level(*old(e)),
            gz_encoder_fed(*old(e)),
        ),
{
    e.inner.try_finish().unwrap()
}

/// `GzEncoder::get_mut`: the output buffer itself. What the caller leaves in
/// it is what the encoder then holds; the stream is not touched.
#[verifier::external_body]
pub(crate) fn gz_encoder_get_mut(e: &mut GzipEncoder) -> (buf: &mut Vec<u8>)
    ensures
        buf@ == gz_encoder_pending(*old(e)),
        gz_encoder_pending(*final(e)) == final(buf)@,
        gz_encoder_level(*final(e)) == gz_encoder_level(*old(e)),
        gz_encoder_fed(*final(e)) == gz_encoder_fed(*old(e)),
        gz_encoder_finished(*final(e)) == gz_encoder_finished(*old(e)),
{
    e.inner.get_mut()
}

/// `GzEncoder::get_ref`: the output buffer, to read.
#[verifier::external_body]
pub(crate) fn gz_encoder_get_ref(e: &GzipEncoder) -> (buf: &Vec<u8>)
    ensures
        buf@ == gz_encoder_pending(*e),
{
    e.inner.get_ref()
}

/// A `flate2::write::GzDecoder` over a byte buffer of its own.
#[verifier::external_body]
pub struct GzipDecoder {
    inner: GzDecoder<Vec<u8>>,
}

/// The chunks written to the decoder since it was made, in order.
pub uninterp spec fn gz_decoder_fed(d: GzipDecoder) -> Seq<Seq<u8>>;

/// The bytes in the decoder's output buffer: decoded and not yet taken out.
pub uninterp spec fn gz_decoder_pending(d: GzipDecoder) -> Seq<u8>;

/// Whether the stream has been finished.
pub uninterp spec fn gz_decoder_finished(d: GzipDecoder) -> bool;

/// What becomes of writing `chunk` to a gzip decoder after the chunks
/// `before`: `None` where the decoder rejects it, else the bytes that it hands
/// to its output buffer meanwhile.
pub uninterp spec fn gunzip_write(before: Seq<Seq<u8>>, chunk: Seq<u8>) -> Option<Seq<u8>>;

/// What becomes of finishing a gzip decoder after the chunks `fed`: `None`
/// where the stream is cut short or its checksum is wrong, else the bytes
/// that the decoder hands to its output buffer meanwhile.
pub uninterp spec fn gunzip_finish(fed: Seq<Seq<u8>>) -> Option<Seq<u8>>;

/// `GzDecoder::new` over an empty `Vec`.
#[verifier::external_body]
pub(crate) fn gz_decoder_new() -> (d: GzipDecoder)
    ensures
        gz_decoder_fed(d) == Seq::<Seq<u8>>::empty(),
        gz_decoder_pending(d) == Seq::<u8>::empty(),
        !gz_decoder_finished(d),
{
    GzipDecoder { inner: GzDecoder::new(Vec::new()) }
}

/// `Write::write_all` on the decoder. Where it succeeds, the chunk joins what
/// was fed and the decoded bytes are appended to the buffer. Of a decoder
/// that has failed nothing is said.
#[verifier::external_body]
pub(crate) fn gz_decoder_write_all(d: &mut GzipDecoder, chunk: &[u8]) -> (r: Result<
    (),
    std::io::Error,
>)
    requires
        !gz_decoder_finished(*old(d)),
    ensures
        r is Ok <==> gunzip_write(gz_decoder_fed(*old(d)), chunk@) is Some,
        r is Ok ==> gz_decoder_fed(*final(d)) == gz_decoder_fed(*old(d)).push(chunk@),
        r is Ok ==> !gz_decoder_finished(*final(d)),
        r is Ok ==> gz_decoder_pending(*final(d)) == gz_decoder_pending(*old(d)) + gunzip_write(
            gz_decoder_fed(*old(d)),
            chunk@,
        ).unwrap(),
{
    d.inner.write_all(chunk)
}

/// `GzDecoder::try_finish`. Where it succeeds, the last decoded bytes are
/// appended to the buffer and the stream is finished.
#[verifier::external_body]
pub(crate) fn gz_decoder_try_finish(d: &mut GzipDecoder) -> (r: Result<(), std::io::Error>)
    requires
        !gz_decoder_finished(*old(d)),
    ensures
        r is Ok <==> gunzip_finish(gz_decoder_fed(*old(d))) is Some,
        r is Ok ==> gz_decoder_fed(*final(d)) == gz_decoder_fed(*old(d)),
        r is Ok ==> gz_decoder_finished(*final(d)),
        r is Ok ==> gz_decoder_pending(*final(d)) == gz_decoder_pending(*old(d)) + gunzip_finish(
            gz_decoder_fed(*old(d)),
        ).unwrap(),
{
    d.inner.try_finish()
}

/// `GzDecoder::get_mut`: the output buffer itself. What the caller leaves in
/// it is what the decoder then holds; the stream is not touched.
#[verifier::external_body]
pub(crate) fn gz_decoder_get_mut(d: &mut GzipDecoder) -> (buf: &mut Vec<u8>)
    ensures
        buf@ == gz_decoder_pending(*old(d)),
        gz_decoder_pending(*final(d)) == final(buf)@,
        gz_decoder_fed(*final(d)) == gz_decoder_fed(*old(d)),
        gz_decoder_finished(*final(d)) == gz_decoder_finished(*old(d)),
{
    d.inner.get_mut()
}

/// `GzDecoder::get_ref`: the output buffer, to read.
#[verifier::external_body]
pub(crate) fn gz_decoder_get_ref(d: &GzipDecoder) -> (buf: &Vec<u8>)
    ensures
        buf@ == gz_decoder_pending(*d),
{
    d.inner.get_ref()
}

} // verus!
