//! The zstd streams of the `zstd` crate, behind contracts that Verus takes on
//! trust. The encoder is spoken of in the same terms as the gzip streams.
//! The decoder is run step by step, so that the library sees where a frame
//! ends.
use std::io::Write;
use vstd::prelude::*;
use zstd::stream::raw::{Decoder, Operation, Status};
use zstd::stream::write::Encoder;

verus! {

/// A `zstd::stream::write::Encoder` over a byte buffer of its own.
#[verifier::external_body]
pub struct ZstdEncoder {
    inner: Encoder<'static, Vec<u8>>,
}

/// The compression level that the encoder was made with.
pub uninterp spec fn zstd_encoder_level(e: ZstdEncoder) -> i32;

/// The chunks written to the encoder since it was made, in order.
pub uninterp spec fn zstd_encoder_fed(e: ZstdEncoder) -> Seq<Seq<u8>>;

/// The bytes in the encoder's output buffer: emitted and not yet taken out.
pub uninterp spec fn zstd_encoder_pending(e: ZstdEncoder) -> Seq<u8>;

/// Whether the stream has been finished.
pub uninterp spec fn zstd_encoder_finished(e: ZstdEncoder) -> bool;

/// The bytes that a zstd encoder of level `level` hands to its output buffer
/// while `chunk` is written to it, after the chunks `before`.
pub uninterp spec fn zstd_write(level: i32, before: Seq<Seq<u8>>, chunk: Seq<u8>) -> Seq<u8>;

/// The bytes that a zstd encoder of level `level` hands to its output buffer
/// while its stream is finished, after the chunks `fed`.
pub uninterp spec fn zstd_finish(level: i32, fed: Seq<Seq<u8>>) -> Seq<u8>;

/// `Encoder::new` over an empty `Vec`. The new encoder has been fed nothing
/// and has emitted nothing. zstd brings a level outside its range to the
/// nearest one inside, so every level is taken; making the encoder fails
/// only where zstd gets no memory.
#[verifier::external_body]
pub(crate) fn zstd_encoder_new(level: i32) -> (e: ZstdEncoder)
    ensures
        zstd_encoder_level(e) == level,
        zstd_encoder_fed(e) == Seq::<Seq<u8>>::empty(),
        zstd_encoder_pending(e) == Seq::<u8>::empty(),
        !zstd_encoder_finished(e),
{
    ZstdEncoder { inner: Encoder::new(Vec::new(), level).unwrap() }
}

/// `Write::write_all` on the encoder. The chunk joins what was fed, and what
/// the encoder emits meanwhile is appended to its buffer. Writing fails only
/// where the buffer does, and a `Vec` accepts every write; a finished stream
/// takes no more input.
#[verifier::external_body]
pub(crate) fn zstd_encoder_write_all(e: &mut ZstdEncoder, chunk: &[u8])
    requires
        !zstd_encoder_finished(*old(e)),
    ensures
        zstd_encoder_level(*final(e)) == zstd_encoder_level(*old(e)),
        zstd_encoder_fed(*final(e)) == zstd_encoder_fed(*old(e)).push(chunk@),
        !zstd_encoder_finished(*final(e)),
        zstd_encoder_pending(*final(e)) == zstd_encoder_pending(*old(e)) + zstd_write(
            zstd_encoder_level(*old(e)),
            zstd_encoder_fed(*old(e)),
            chunk@,
        ),
{
    e.inner.write_all(chunk).unwrap()
}

/// `Encoder::do_finish`. What is still held back, and the end of the frame,
/// are appended to the buffer, and the stream is finished. Finishing fails
/// only where the buffer does.
#[verifier::external_body]
pub(crate) fn zstd_encoder_do_finish(e: &mut ZstdEncoder)
    requires
        !zstd_encoder_finished(*old(e)),
    ensures
        zstd_encoder_level(*final(e)) == zstd_encoder_level(*old(e)),
        zstd_encoder_fed(*final(e)) == zstd_encoder_fed(*old(e)),
        zstd_encoder_finished(*final(e)),
        zstd_encoder_pending(*final(e)) == zstd_encoder_pending(*old(e)) + zstd_finish(
            zstd_encoder_level(*old(e)),
            zstd_encoder_fed(*old(e)),
        ),
{
    e.inner.do_finish().unwrap()
}

/// `Encoder::get_mut`: the output buffer itself. What the caller leaves in it
/// is what the encoder then holds; the stream is not touched.
#[verifier::external_body]
pub(crate) fn zstd_encoder_get_mut(e: &mut ZstdEncoder) -> (buf: &mut Vec<u8>)
    ensures
        buf@ == zstd_encoder_pending(*old(e)),
        zstd_encoder_pending(*final(e)) == final(buf)@,
        zstd_encoder_level(*final(e)) == zstd_encoder_level(*old(e)),
        zstd_encoder_fed(*final(e)) == zstd_encoder_fed(*old(e)),
        zstd_encoder_finished(*final(e)) == zstd_encoder_finished(*old(e)),
{
    e.inner.get_mut()
}

/// `zstd::stream::raw::Decoder`: a zstd decoder that is run step by step,
/// from a slice of input into a slice of output.
#[verifier::external_type_specification]
#[verifier::external_body]
pub struct ExRawDecoder<'a>(Decoder<'a>);

/// `zstd::stream::raw::Status`: what one run of the decoder reports.
#[verifier::external_type_specification]
pub struct ExStatus(Status);

/// One run of the decoder, as it was asked for: the input that was offered
/// and the room that the output had.
pub struct Run {
    pub input: Seq<u8>,
    pub room: nat,
}

/// What one run of the decoder did.
pub struct Ran {
    /// The number of bytes that it took from the front of the input.
    pub read: nat,
    /// The bytes that it wrote to the front of the output.
    pub written: Seq<u8>,
    /// A hint at the input that it still expects: 0 where it stands at the
    /// end of a frame, with all of the frame's bytes written.
    pub hint: nat,
}

/// The runs of the decoder since it was made, in order.
pub uninterp spec fn zstd_decoder_runs(d: Decoder<'static>) -> Seq<Run>;

/// Whether a run of the decoder has reported an error. zstd leaves such a
/// decoder in no state to run again.
pub uninterp spec fn zstd_decoder_failed(d: Decoder<'static>) -> bool;

/// What becomes of running a zstd decoder on `input` with `room` bytes of
/// room for the output, after the runs `before`: `None` where the decoder
/// reports an error, else what the run did.
pub uninterp spec fn unzstd_run(before: Seq<Run>, input: Seq<u8>, room: nat) -> Option<Ran>;

/// `Decoder::new`: a decoder that has not run. Making it fails only where
/// zstd gets no memory.
#[verifier::external_body]
pub(crate) fn zstd_decoder_new() -> (d: Decoder<'static>)
    ensures
        zstd_decoder_runs(d) == Seq::<Run>::empty(),
        !zstd_decoder_failed(d),
{
    Decoder::new().unwrap()
}

/// `Operation::run_on_buffers` of the decoder: one run. It takes bytes from
/// the front of `input`, never more than there are, and writes bytes to the
/// front of `output`, never more than there is room for. The length of
/// `output` stays. Of a decoder that has failed nothing is said.
#[verifier::external_body]
pub(crate) fn zstd_decoder_run(
    d: &mut Decoder<'static>,
    input: &[u8],
    output: &mut [u8],
) -> (r: Result<Status, std::io::Error>)
    requires
        !zstd_decoder_failed(*old(d)),
    ensures
        final(output)@.len() == old(output)@.len(),
        r is Ok <==> unzstd_run(
            zstd_decoder_runs(*old(d)),
            input@,
            old(output)@.len(),
        ) is Some,
        r is Ok ==> !zstd_decoder_failed(*final(d)),
        r is Ok ==> zstd_decoder_runs(*final(d)) == zstd_decoder_runs(*old(d)).push(
            Run { input: input@, room: old(output)@.len() },
        ),
        r matches Ok(status) ==> status.bytes_read <= input@.len() && status.bytes_written
            <= old(output)@.len(),
        r matches Ok(status) ==> unzstd_run(
            zstd_decoder_runs(*old(d)),
            input@,
            old(output)@.len(),
        ) == Some(
            Ran {
                read: status.bytes_read as nat,
                written: final(output)@.subrange(0, status.bytes_written as int),
                hint: status.remaining as nat,
            },
        ),
{
    d.run_on_buffers(input, output)
}

} // verus!
