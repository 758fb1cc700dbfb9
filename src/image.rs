//! Indexed pixel buffers, contiguous or with padded rows.
use vstd::prelude::*;
use vstd::arithmetic::div_mod::{lemma_fundamental_div_mod, lemma_multiply_divide_lt};

verus! {

/// A `width` x `height` image of palette indices, stored row by row with
/// `stride` entries from the start of one row to the start of the next.
pub struct IndexedImage {
    pub buf: Vec<u8>,
    pub width: usize,
    pub height: usize,
    pub stride: usize,
}

impl IndexedImage {
    /// Rows fit in the stride and every row lies inside the buffer.
    pub open spec fn wf(&self) -> bool {
        self.width <= self.stride && self.stride * self.height <= self.buf@.len()
    }

    /// The pixel at column `x` of row `y`.
    pub open spec fn pixel(&self, x: int, y: int) -> u8 {
        self.buf@[y * self.stride + x]
    }

    /// The pixels in row-major order, without row padding.
    pub open spec fn pixels(&self) -> Seq<u8> {
        Seq::new(
            (self.width * self.height) as nat,
            |k: int| self.pixel(k % (self.width as int), k / (self.width as int)),
        )
    }

    /// An image whose rows follow each other without padding.
    pub fn new(buf: Vec<u8>, width: usize, height: usize) -> (r: IndexedImage)
        requires
            width * height <= buf@.len(),
        ensures
            r.wf(),
            r.buf == buf,
            r.width == width,
            r.height == height,
            r.stride == width,
    {
        IndexedImage { buf, width, height, stride: width }
    }

    /// The pixels in one contiguous row-major buffer, with the width and
    /// height. A buffer without padding is handed back as it is.
    pub fn into_contiguous_buf(self) -> (r: (Vec<u8>, usize, usize))
        requires
            self.wf(),
        ensures
            r.0@ == self.pixels(),
            r.1 == self.width,
            r.2 == self.height,
    {
        let ghost img = self;
        let IndexedImage { buf, width, height, stride } = self;
        let len = buf.len();
        proof {
            assert(width * height <= stride * height) by (nonlinear_arith)
                requires
                    width <= stride,
            ;
        }
        let n = width * height;
        if stride == width {
            let mut buf = buf;
            buf.truncate(n);
            proof {
                assert forall|k: int| 0 <= k < n implies buf@[k] == img.pixel(
                    k % (width as int),
                    k / (width as int),
                ) by {
                    lemma_fundamental_div_mod(k, width as int);
                }
                assert(buf@ =~= img.pixels());
            }
            return (buf, width, height);
        }
        let mut out: Vec<u8> = Vec::with_capacity(n);
        for k in 0..n
            invariant
                n == width * height,
                img.width == width,
                img.height == height,
                img.stride == stride,
                img.buf == buf,
                width <= stride,
                len == buf@.len(),
                stride * height <= len,
                out@ =~= img.pixels().take(k as int),
        {
            let y = k / width;
            let x = k % width;
            proof {
                lemma_multiply_divide_lt(k as int, width as int, height as int);
                assert(y * stride + x < stride * height) by (nonlinear_arith)
                    requires
                        y < height,
                        x < width,
                        width <= stride,
                ;
            }
            out.push(buf[y * stride + x]);
            assert(out@ =~= img.pixels().take(k + 1));
        }
        assert(img.pixels().take(n as int) =~= img.pixels());
        (out, width, height)
    }
}

} // verus!
