//! Frames as the upstream pipeline hands them over, and their canonical form.
use vstd::prelude::*;
use crate::image::IndexedImage;

verus! {

#[verifier::external_type_specification]
#[verifier::reject_recursive_types(T)]
#[verifier::reject_recursive_types(A)]
pub struct ExRgba<T, A>(rgb::Rgba<T, A>);

/// Whether palette entry `i` exists and is fully transparent.
pub open spec fn transparent_at(pal: Seq<rgb::RGBA8>, i: int) -> bool {
    0 <= i < pal.len() && pal[i].a == 0
}

/// The first fully transparent entry of the palette, scanning in index order.
pub open spec fn first_transparent(pal: Seq<rgb::RGBA8>) -> Option<int>
    decreases pal.len(),
{
    if pal.len() == 0 {
        None
    } else {
        match first_transparent(pal.drop_last()) {
            Some(i) => Some(i),
            None => if pal.last().a == 0 {
                Some(pal.len() - 1)
            } else {
                None
            },
        }
    }
}

/// The transparent index of a frame with this palette, as a pixel value.
pub open spec fn canonical_index(pal: Seq<rgb::RGBA8>) -> Option<u8> {
    match first_transparent(pal) {
        Some(i) => Some(i as u8),
        None => None,
    }
}

/// What a pixel becomes: every transparent entry is replaced by the first one.
pub open spec fn canonical_pixel(pal: Seq<rgb::RGBA8>, v: u8) -> u8 {
    match first_transparent(pal) {
        Some(t) => if transparent_at(pal, v as int) {
            t as u8
        } else {
            v
        },
        None => v,
    }
}

/// A whole pixel buffer in canonical form.
pub open spec fn canonical_pixels(pal: Seq<rgb::RGBA8>, buf: Seq<u8>) -> Seq<u8> {
    buf.map_values(|v: u8| canonical_pixel(pal, v))
}

/// The palette as `r, g, b` triplets in index order, alpha dropped.
pub open spec fn rgb_bytes(pal: Seq<rgb::RGBA8>) -> Seq<u8>
    decreases pal.len(),
{
    if pal.len() == 0 {
        Seq::empty()
    } else {
        rgb_bytes(pal.drop_last()) + seq![pal.last().r, pal.last().g, pal.last().b]
    }
}

/// `first_transparent` is the least transparent index, and absent exactly
/// when no entry is transparent.
pub proof fn lemma_first_transparent(pal: Seq<rgb::RGBA8>)
    ensures
        first_transparent(pal) is None <==> (forall|j: int| !transparent_at(pal, j)),
        first_transparent(pal) matches Some(i) ==> transparent_at(pal, i) && (forall|j: int|
            0 <= j < i ==> !transparent_at(pal, j)),
    decreases pal.len(),
{
    if pal.len() > 0 {
        let pre = pal.drop_last();
        lemma_first_transparent(pre);
        assert forall|j: int| 0 <= j < pre.len() implies transparent_at(pre, j) == transparent_at(
            pal,
            j,
        ) by {
            assert(pre[j] == pal[j]);
        }
        match first_transparent(pre) {
            Some(i) => {
                assert(transparent_at(pal, i));
            },
            None => {
                assert forall|j: int| 0 <= j < pal.len() - 1 implies !transparent_at(pal, j) by {
                    assert(!transparent_at(pre, j));
                }
                if pal.last().a != 0 {
                    assert(!transparent_at(pal, pal.len() - 1));
                } else {
                    assert(transparent_at(pal, pal.len() - 1));
                }
            },
        }
    }
}

/// The triplet bytes hold each entry's red, green and blue at `3 * i`.
pub proof fn lemma_rgb_bytes(pal: Seq<rgb::RGBA8>)
    ensures
        rgb_bytes(pal).len() == 3 * pal.len(),
        forall|i: int|
            0 <= i < pal.len() ==> rgb_bytes(pal)[3 * i] == pal[i].r && rgb_bytes(pal)[3 * i + 1]
                == pal[i].g && rgb_bytes(pal)[3 * i + 2] == pal[i].b,
    decreases pal.len(),
{
    if pal.len() > 0 {
        let pre = pal.drop_last();
        lemma_rgb_bytes(pre);
        assert forall|i: int| 0 <= i < pal.len() implies rgb_bytes(pal)[3 * i] == pal[i].r
            && rgb_bytes(pal)[3 * i + 1] == pal[i].g && rgb_bytes(pal)[3 * i + 2] == pal[i].b by {
            if i < pre.len() {
                assert(pre[i] == pal[i]);
            }
        }
    }
}


/// Each pixel equal to `from` replaced by `to`.
pub open spec fn replaced(buf: Seq<u8>, from: u8, to: u8) -> Seq<u8> {
    buf.map_values(|v: u8| if v == from { to } else { v })
}

/// How the canonical form of a buffer changes when the palette prefix grows
/// by one entry.
proof fn lemma_canonical_step(pal: Seq<rgb::RGBA8>, i: int, buf: Seq<u8>)
    requires
        0 <= i < pal.len(),
        pal.len() <= 256,
    ensures
        pal.take(i + 1).drop_last() == pal.take(i),
        first_transparent(pal.take(i)) is Some && pal[i].a == 0 ==> canonical_pixels(
            pal.take(i + 1),
            buf,
        ) == replaced(
            canonical_pixels(pal.take(i), buf),
            i as u8,
            first_transparent(pal.take(i))->0 as u8,
        ),
        !(first_transparent(pal.take(i)) is Some && pal[i].a == 0) ==> canonical_pixels(
            pal.take(i + 1),
            buf,
        ) == canonical_pixels(pal.take(i), buf),
{
    let pre = pal.take(i);
    let cur = pal.take(i + 1);
    assert(cur.drop_last() =~= pre);
    lemma_first_transparent(pre);
    lemma_first_transparent(cur);
    assert forall|v: int| 0 <= v < i implies transparent_at(cur, v) == transparent_at(pre, v) by {
        assert(cur[v] == pre[v]);
    }
    assert(cur.last() == pal[i]);
    match first_transparent(pre) {
        Some(t) => {
            if pal[i].a == 0 {
                assert(canonical_pixels(cur, buf) =~= replaced(
                    canonical_pixels(pre, buf),
                    i as u8,
                    t as u8,
                ));
            } else {
                assert(canonical_pixels(cur, buf) =~= canonical_pixels(pre, buf));
            }
        },
        None => {
            assert(canonical_pixels(cur, buf) =~= canonical_pixels(pre, buf));
        },
    }
}

/// Replaces every pixel equal to `from` by `to`, in place.
pub fn replace_index(buffer: &mut Vec<u8>, from: u8, to: u8)
    ensures
        final(buffer)@ == replaced(old(buffer)@, from, to),
{
    let ghost start = buffer@;
    let n = buffer.len();
    for j in 0..n
        invariant
            n == start.len(),
            buffer@.len() == n,
            forall|k: int| 0 <= k < j ==> buffer@[k] == (if start[k] == from { to } else { start[k] }),
            forall|k: int| j <= k < n ==> buffer@[k] == start[k],
    {
        if buffer[j] == from {
            buffer.set(j, to);
        }
    }
    assert(buffer@ =~= replaced(start, from, to));
}

/// Merges every fully transparent palette entry into the first one: pixels
/// that use a later transparent entry are rewritten to the first. Returns
/// that first transparent index, if any, and the palette as `r, g, b`
/// triplets in index order; the palette's length and colours are kept.
pub fn canonicalize_palette(buffer: &mut Vec<u8>, pal: &Vec<rgb::RGBA8>) -> (r: (
    Option<u8>,
    Vec<u8>,
))
    requires
        pal@.len() <= 256,
    ensures
        r.0 == canonical_index(pal@),
        final(buffer)@ == canonical_pixels(pal@, old(buffer)@),
        r.1@ == rgb_bytes(pal@),
{
    let ghost start = buffer@;
    let mut transparent_index: Option<u8> = None;
    let mut pal_rgb: Vec<u8> = Vec::with_capacity(3 * pal.len());
    assert(pal@.take(0) =~= Seq::<rgb::RGBA8>::empty());
    assert(canonical_pixels(pal@.take(0), start) =~= start);
    for i in 0..pal.len()
        invariant
            pal@.len() <= 256,
            transparent_index == canonical_index(pal@.take(i as int)),
            buffer@ == canonical_pixels(pal@.take(i as int), start),
            pal_rgb@ == rgb_bytes(pal@.take(i as int)),
    {
        proof {
            lemma_canonical_step(pal@, i as int, start);
            lemma_first_transparent(pal@.take(i as int));
        }
        let p = &pal[i];
        if p.a == 0 {
            let new_index = i as u8;
            if let Some(old_index) = transparent_index {
                replace_index(buffer, new_index, old_index);
            } else {
                transparent_index = Some(new_index);
            }
        }
        pal_rgb.push(p.r);
        pal_rgb.push(p.g);
        pal_rgb.push(p.b);
        assert(pal@.take(i + 1).last() == pal@[i as int]);
        assert(pal_rgb@ =~= rgb_bytes(pal@.take(i + 1)));
    }
    assert(pal@.take(pal@.len() as int) =~= pal@);
    (transparent_index, pal_rgb)
}


/// A palette without transparent entries gives no transparent index and
/// leaves every pixel as it was.
pub proof fn lemma_no_transparent(pal: Seq<rgb::RGBA8>, buf: Seq<u8>)
    requires
        forall|j: int| !transparent_at(pal, j),
    ensures
        canonical_index(pal) is None,
        canonical_pixels(pal, buf) == buf,
{
    lemma_first_transparent(pal);
    assert(canonical_pixels(pal, buf) =~= buf);
}

/// A palette with one transparent entry makes it the transparent index and
/// leaves every pixel as it was.
pub proof fn lemma_single_transparent(pal: Seq<rgb::RGBA8>, i: int, buf: Seq<u8>)
    requires
        pal.len() <= 256,
        transparent_at(pal, i),
        forall|j: int| j != i ==> !transparent_at(pal, j),
    ensures
        canonical_index(pal) == Some(i as u8),
        canonical_pixels(pal, buf) == buf,
{
    lemma_first_transparent(pal);
    assert(first_transparent(pal) == Some(i));
    assert(canonical_pixels(pal, buf) =~= buf);
}

/// With several transparent entries, the first one `i1` is the transparent
/// index; every pixel of a transparent entry becomes `i1`, every other pixel
/// stays, and the palette keeps its length and the colour of every entry.
pub proof fn lemma_transparent_merged(pal: Seq<rgb::RGBA8>, i1: int, i2: int, buf: Seq<u8>)
    requires
        pal.len() <= 256,
        i1 < i2,
        transparent_at(pal, i1),
        transparent_at(pal, i2),
        forall|j: int| 0 <= j < i1 ==> !transparent_at(pal, j),
    ensures
        canonical_index(pal) == Some(i1 as u8),
        canonical_pixels(pal, buf).len() == buf.len(),
        forall|k: int|
            0 <= k < buf.len() && transparent_at(pal, buf[k] as int) ==> #[trigger] canonical_pixels(
                pal,
                buf,
            )[k] == i1,
        forall|k: int|
            0 <= k < buf.len() && !transparent_at(pal, buf[k] as int) ==> #[trigger] canonical_pixels(
                pal,
                buf,
            )[k] == buf[k],
        rgb_bytes(pal).len() == 3 * pal.len(),
        forall|i: int|
            0 <= i < pal.len() ==> #[trigger] rgb_bytes(pal)[3 * i] == pal[i].r && rgb_bytes(pal)[3
                * i + 1] == pal[i].g && rgb_bytes(pal)[3 * i + 2] == pal[i].b,
{
    lemma_first_transparent(pal);
    lemma_rgb_bytes(pal);
    match first_transparent(pal) {
        Some(t) => {
            if t < i1 {
                assert(!transparent_at(pal, t));
            }
            if t > i1 {
                assert(!transparent_at(pal, i1));
            }
        },
        None => {
            assert(!transparent_at(pal, i1));
        },
    }
}

/// One composed frame of the animation.
pub struct GIFFrame {
    pub left: u16,
    pub top: u16,
    pub pal: Vec<rgb::RGBA8>,
    pub image: IndexedImage,
    pub screen_width: u16,
    pub screen_height: u16,
    pub dispose: gif::DisposalMethod,
}

impl GIFFrame {
    /// The palette fits the format's 256 indices, the image is well formed
    /// and its size fits the format's 16-bit fields.
    pub open spec fn wf(&self) -> bool {
        &&& self.pal@.len() <= 256
        &&& self.image.wf()
        &&& self.image.width <= u16::MAX
        &&& self.image.height <= u16::MAX
    }
}

/// A frame prepared for the block encoder.
pub struct FrameDesc {
    pub delay: u16,
    pub dispose: gif::DisposalMethod,
    pub transparent: Option<u8>,
    pub needs_user_input: bool,
    pub top: u16,
    pub left: u16,
    pub width: u16,
    pub height: u16,
    pub interlaced: bool,
    pub palette: Vec<u8>,
    pub buffer: Vec<u8>,
}

/// The value of a `FrameDesc`, with its byte buffers as sequences.
pub struct FrameView {
    pub delay: u16,
    pub dispose: gif::DisposalMethod,
    pub transparent: Option<u8>,
    pub needs_user_input: bool,
    pub top: u16,
    pub left: u16,
    pub width: u16,
    pub height: u16,
    pub interlaced: bool,
    pub palette: Seq<u8>,
    pub buffer: Seq<u8>,
}

impl View for FrameDesc {
    type V = FrameView;

    open spec fn view(&self) -> FrameView {
        FrameView {
            delay: self.delay,
            dispose: self.dispose,
            transparent: self.transparent,
            needs_user_input: self.needs_user_input,
            top: self.top,
            left: self.left,
            width: self.width,
            height: self.height,
            interlaced: self.interlaced,
            palette: self.palette@,
            buffer: self.buffer@,
        }
    }
}

/// The descriptor that a frame shown for `delay` becomes: the first
/// transparent entry is the frame's transparent index, pixels of the other
/// transparent entries are moved to it, and the palette keeps every colour.
pub open spec fn descriptor(f: GIFFrame, delay: u16) -> FrameView {
    FrameView {
        delay,
        dispose: f.dispose,
        transparent: canonical_index(f.pal@),
        needs_user_input: false,
        top: f.top,
        left: f.left,
        width: f.image.width as u16,
        height: f.image.height as u16,
        interlaced: false,
        palette: rgb_bytes(f.pal@),
        buffer: canonical_pixels(f.pal@, f.image.pixels()),
    }
}

/// Builds the descriptor of a frame: its pixels in one contiguous buffer with
/// the transparent entries merged, and its palette as `r, g, b` triplets.
pub fn frame_descriptor(f: GIFFrame, delay: u16) -> (r: FrameDesc)
    requires
        f.wf(),
    ensures
        r@ == descriptor(f, delay),
{
    let GIFFrame { left, top, pal, image, screen_width, screen_height, dispose } = f;
    let (mut buffer, width, height) = image.into_contiguous_buf();
    let (transparent_index, pal_rgb) = canonicalize_palette(&mut buffer, &pal);
    FrameDesc {
        delay,
        dispose,
        transparent: transparent_index,
        needs_user_input: false,
        top,
        left,
        width: width as u16,
        height: height as u16,
        interlaced: false,
        palette: pal_rgb,
        buffer,
    }
}

} // verus!
