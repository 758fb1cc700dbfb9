//! The stream writer: opens the output on the first frame, then appends
//! canonicalized frames.
use vstd::prelude::*;
use crate::codec::{
    finish_block_encoder, open_block_encoder, take_written, write_block_frame, write_repetitions,
    BlockEncoder, Repeat,
};
use crate::frame::{descriptor, frame_descriptor, FrameView, GIFFrame};

verus! {

/// What the stream writer needs of the caller's settings.
pub struct Settings {
    pub repeat: Repeat,
}

/// A failure of the block encoder, passed on as it came.
#[derive(Debug)]
pub enum EncodeError {
    Gif(gif::EncodingError),
}

/// What the block encoder has accepted, in order.
pub enum Emitted {
    Screen { width: u16, height: u16 },
    Repetitions(Repeat),
    Frame(FrameView),
}

/// The canvas first, the looping directive second, and only frames after.
pub open spec fn stream_ordered(log: Seq<Emitted>) -> bool {
    &&& forall|k: int| 0 <= k < log.len() ==> (log[k] is Screen <==> k == 0)
    &&& forall|k: int| 0 <= k < log.len() ==> (log[k] is Repetitions <==> k == 1)
}

/// The canvas size that the stream was opened with.
pub open spec fn canvas(log: Seq<Emitted>) -> Option<(u16, u16)> {
    if log.len() > 0 && log[0] is Screen {
        Some((log[0]->Screen_width, log[0]->Screen_height))
    } else {
        None
    }
}

/// What opening the stream for a first frame emits.
pub open spec fn opening(f: GIFFrame, settings: Settings) -> Seq<Emitted> {
    seq![
        Emitted::Screen { width: f.screen_width, height: f.screen_height },
        Emitted::Repetitions(settings.repeat),
    ]
}

/// Writes frames into a byte sink. The sink is taken over by the block
/// encoder on the first frame; until then the encoder is unopened.
pub struct RustEncoder {
    writer: Option<Vec<u8>>,
    gif_enc: Option<BlockEncoder>,
    emitted: Ghost<Seq<Emitted>>,
}

impl RustEncoder {
    /// What the block encoder has accepted so far.
    pub closed spec fn log(&self) -> Seq<Emitted> {
        self.emitted@
    }

    /// The sink, while no frame has been written.
    pub closed spec fn sink(&self) -> Option<Seq<u8>> {
        match self.writer {
            Some(w) => Some(w@),
            None => None,
        }
    }

    /// The block encoder has been opened.
    pub closed spec fn is_open(&self) -> bool {
        self.gif_enc is Some
    }

    /// Frames can still be written: the stream is open, or the sink is
    /// still held. A failure while opening leaves neither.
    pub closed spec fn usable(&self) -> bool {
        self.writer is Some || self.gif_enc is Some
    }

    /// The sink and the open block encoder are never held together.
    pub closed spec fn inv(&self) -> bool {
        !(self.writer is Some && self.gif_enc is Some)
    }

    /// The state is consistent with what was emitted.
    pub open spec fn wf(&self) -> bool {
        &&& self.inv()
        &&& stream_ordered(self.log())
        &&& self.usable() && !self.is_open() ==> self.log().len() == 0
        &&& self.is_open() ==> self.usable() && self.log().len() >= 2
    }

    /// An unopened encoder that holds the sink.
    pub fn new(writer: Vec<u8>) -> (r: Self)
        ensures
            r.wf(),
            r.usable(),
            !r.is_open(),
            r.log() == Seq::<Emitted>::empty(),
            r.sink() == Some(writer@),
    {
        RustEncoder { writer: Some(writer), gif_enc: None, emitted: Ghost(Seq::empty()) }
    }

    /// Writes one frame shown for `delay` (in hundredths of a second). The
    /// first call opens the stream with the frame's canvas size and writes
    /// the looping directive of `settings`; later calls keep the canvas.
    /// The frame is always handed to the block encoder, which accepts every
    /// well-formed frame on an in-memory sink, so the call succeeds.
    pub fn write_frame(&mut self, f: GIFFrame, delay: u16, settings: &Settings) -> (r: Result<
        (),
        EncodeError,
    >)
        requires
            old(self).wf(),
            old(self).usable(),
            f.wf(),
        ensures
            r is Ok,
            final(self).wf(),
            final(self).is_open(),
            final(self).usable(),
            final(self).log() == old(self).log() + (if old(self).is_open() {
                Seq::<Emitted>::empty()
            } else {
                opening(f, *settings)
            }) + seq![Emitted::Frame(descriptor(f, delay))],
            canvas(final(self).log()) == if old(self).is_open() {
                canvas(old(self).log())
            } else {
                Some((f.screen_width, f.screen_height))
            },
    {
        let ghost f0 = f;
        let repeat = settings.repeat;
        let mut enc = match self.gif_enc.take() {
            Some(enc) => enc,
            None => {
                let w = match self.writer.take() {
                    Some(w) => w,
                    None => unreached(),
                };
                let mut enc = match open_block_encoder(w, f.screen_width, f.screen_height) {
                    Ok(enc) => enc,
                    Err(e) => return Err(EncodeError::Gif(e)),
                };
                self.emitted = Ghost(
                    self.emitted@.push(
                        Emitted::Screen { width: f.screen_width, height: f.screen_height },
                    ),
                );
                match write_repetitions(&mut enc, repeat) {
                    Ok(()) => {},
                    Err(e) => return Err(EncodeError::Gif(e)),
                }
                self.emitted = Ghost(self.emitted@.push(Emitted::Repetitions(repeat)));
                enc
            },
        };
        let desc = frame_descriptor(f, delay);
        let ghost d = desc@;
        proof {
            let (w, h) = (f0.image.width as int, f0.image.height as int);
            assert(d.buffer.len() == w * h);
            assert(w == 0 || h == 0 ==> w * h == 0) by (nonlinear_arith);
            crate::frame::lemma_rgb_bytes(f0.pal@);
        }
        let res = write_block_frame(&mut enc, desc);
        self.gif_enc = Some(enc);
        match res {
            Ok(()) => {
                self.emitted = Ghost(self.emitted@.push(Emitted::Frame(d)));
                Ok(())
            },
            Err(e) => Err(EncodeError::Gif(e)),
        }
    }

    /// Hands out the bytes that the open stream has written since the last
    /// call, so that they can be passed on frame by frame. An unopened
    /// encoder hands out nothing and keeps its sink.
    pub fn take_output(&mut self) -> (r: Vec<u8>)
        requires
            old(self).wf(),
        ensures
            final(self).wf(),
            final(self).log() == old(self).log(),
            final(self).is_open() == old(self).is_open(),
            final(self).usable() == old(self).usable(),
            final(self).sink() == old(self).sink(),
            !old(self).is_open() ==> r@.len() == 0,
    {
        match self.gif_enc.take() {
            Some(mut enc) => {
                let bytes = take_written(&mut enc);
                self.gif_enc = Some(enc);
                bytes
            },
            None => Vec::new(),
        }
    }

    /// Ends the stream and hands back the sink. An open stream gets its
    /// trailer first; an unopened one hands the sink back untouched.
    pub fn finish(self) -> (r: Result<Vec<u8>, EncodeError>)
        requires
            self.wf(),
            self.usable(),
        ensures
            r is Ok,
            !self.is_open() ==> self.sink() == Some(r->Ok_0@),
    {
        match self.gif_enc {
            Some(enc) => match finish_block_encoder(enc) {
                Ok(bytes) => Ok(bytes),
                Err(e) => Err(EncodeError::Gif(e)),
            },
            None => match self.writer {
                Some(w) => Ok(w),
                None => unreached(),
            },
        }
    }
}

/// The looping directive is emitted once, right after the canvas, and every
/// frame comes after it, however many frames are written.
pub proof fn lemma_repetitions_once(log: Seq<Emitted>)
    requires
        stream_ordered(log),
    ensures
        forall|k: int|
            0 <= k < log.len() && (#[trigger] log[k]) is Frame ==> 1 < k && log[1] is Repetitions,
        forall|j: int, k: int|
            0 <= j < log.len() && 0 <= k < log.len() && (#[trigger] log[j]) is Repetitions
                && (#[trigger] log[k]) is Repetitions ==> j == k,
{
    assert forall|k: int| 0 <= k < log.len() && (#[trigger] log[k]) is Frame implies 1 < k
        && log[1] is Repetitions by {
        if k == 0 {
            assert(log[0] is Screen);
        }
        if k == 1 {
            assert(log[1] is Repetitions);
        }
    }
}

/// The stream is opened once: one canvas record, the first, and the canvas
/// of a stream stays what the first frame declared.
pub proof fn lemma_canvas_once(log: Seq<Emitted>)
    requires
        stream_ordered(log),
        log.len() > 0,
    ensures
        canvas(log) == Some((log[0]->Screen_width, log[0]->Screen_height)),
        forall|k: int| 0 <= k < log.len() && (#[trigger] log[k]) is Screen ==> k == 0,
        forall|extra: Seq<Emitted>| #[trigger] stream_ordered(log + extra) ==> canvas(log + extra)
            == canvas(log),
{
    assert(log[0] is Screen);
    assert forall|extra: Seq<Emitted>| #[trigger] stream_ordered(log + extra) implies canvas(
        log + extra,
    ) == canvas(log) by {
        assert((log + extra)[0] == log[0]);
    }
}

} // verus!