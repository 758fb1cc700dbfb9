//! The GIF block encoder of the `gif` crate, as this library relies on it.
//! The encoder writes into an in-memory byte sink.
use vstd::prelude::*;
use crate::frame::FrameDesc;

verus! {

#[verifier::external_type_specification]
#[verifier::external_body]
pub struct ExDisposalMethod(gif::DisposalMethod);

#[verifier::external_type_specification]
#[verifier::external_body]
pub struct ExEncodingError(gif::EncodingError);

/// How many times the animation plays.
#[derive(Clone, Copy, Debug, PartialEq, Eq, Structural)]
pub enum Repeat {
    Finite(u16),
    Infinite,
}

/// An open `gif::Encoder` over a byte vector. Verus cannot declare the
/// encoder type itself, whose parameter is bound by `std::io::Write`.
#[verifier::external_body]
pub struct BlockEncoder {
    enc: gif::Encoder<Vec<u8>>,
}

/// Relies on `gif::Encoder::new`: writes the header and logical screen
/// descriptor of a `width` x `height` canvas with no global palette. An empty
/// palette passes its colour-table check and writing into a `Vec` does not
/// fail, so it succeeds.
#[verifier::external_body]
pub(crate) fn open_block_encoder(w: Vec<u8>, width: u16, height: u16) -> (r: Result<
    BlockEncoder,
    gif::EncodingError,
>)
    ensures
        r is Ok,
{
    gif::Encoder::new(w, width, height, &[]).map(|enc| BlockEncoder { enc })
}

/// Relies on `gif::Encoder::write_extension` with `ExtensionData::Repetitions`,
/// which writes the looping directive and writes nothing for `Finite(0)`.
/// Its only failures come from the writer, and writing into a `Vec` does not
/// fail.
#[verifier::external_body]
pub(crate) fn write_repetitions(enc: &mut BlockEncoder, repeat: Repeat) -> (r: Result<
    (),
    gif::EncodingError,
>)
    ensures
        r is Ok,
{
    let repeat = match repeat {
        Repeat::Infinite => gif::Repeat::Infinite,
        Repeat::Finite(x) => gif::Repeat::Finite(x),
    };
    enc.enc.write_extension(gif::ExtensionData::Repetitions(repeat))
}

/// Relies on `gif::Encoder::write_frame`: compresses and writes one frame.
/// It asserts in debug builds that a frame without pixels has no buffer. It
/// fails on a buffer shorter than `width * height`, on a palette of more than
/// 256 colours, or when the writer fails, which a `Vec` does not (memory
/// allocation is taken to succeed, as for every `Vec` here).
#[verifier::external_body]
pub(crate) fn write_block_frame(enc: &mut BlockEncoder, d: FrameDesc) -> (r: Result<
    (),
    gif::EncodingError,
>)
    requires
        (d.width > 0 && d.height > 0) || d.buffer@.len() == 0,
    ensures
        d.palette@.len() <= 768 && d.buffer@.len() >= d.width * d.height ==> r is Ok,
{
    enc.enc.write_frame(
        &gif::Frame {
            delay: d.delay,
            dispose: d.dispose,
            transparent: d.transparent,
            needs_user_input: d.needs_user_input,
            top: d.top,
            left: d.left,
            width: d.width,
            height: d.height,
            interlaced: d.interlaced,
            palette: Some(d.palette),
            buffer: d.buffer.into(),
        },
    )
}

/// Relies on `gif::Encoder::into_inner`: writes the trailer and hands back the
/// bytes written. Its only failures come from the writer, and writing into a
/// `Vec` does not fail.
#[verifier::external_body]
pub(crate) fn finish_block_encoder(enc: BlockEncoder) -> (r: Result<Vec<u8>, gif::EncodingError>)
    ensures
        r is Ok,
{
    enc.enc.into_inner().map_err(gif::EncodingError::from)
}

/// Relies on `gif::Encoder::get_mut` for the byte sink, which `std::mem::take`
/// empties: the bytes written since the last call are handed out.
#[verifier::external_body]
pub(crate) fn take_written(enc: &mut BlockEncoder) -> (r: Vec<u8>) {
    std::mem::take(enc.enc.get_mut())
}

} // verus!
