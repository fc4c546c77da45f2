use vstd::prelude::*;

use crate::error::ImageError;
use crate::pixel::{Dims, RGBPixel};

verus! {

/// Flat row-major raster: the sample at (`row`, `col`) sits at index
/// `row * cols + col`. The color image is an `ImBuffer<RGBPixel>`; the luma
/// and gradient rasters are `ImBuffer<u8>`.
pub struct ImBuffer<T> {
    pub dims: Dims,
    pub buffer: Vec<T>,
}

impl<T> ImBuffer<T> {
    /// Well-formedness: the flat store holds exactly one sample per pixel.
    pub open spec fn wf(&self) -> bool {
        self.buffer@.len() == (self.dims.cols as nat) * (self.dims.rows as nat)
    }

    /// Wraps an already-sized store. Handing over a store whose length does
    /// not match the dimensions is a construction error, so the caller must
    /// guarantee the size here.
    pub fn new(buffer: Vec<T>, dims: Dims) -> (r: Self)
        requires
            buffer@.len() == (dims.cols as nat) * (dims.rows as nat),
        ensures
            r.wf(),
            r.dims == dims,
            r.buffer@ == buffer@,
    {
        ImBuffer { dims, buffer }
    }

    /// Blur is out of scope for this pipeline; the raster is left unchanged.
    #[allow(unused_variables)]
    pub fn blur(&mut self, dim: u32)
        ensures
            final(self).dims == old(self).dims,
            final(self).buffer@ == old(self).buffer@,
    {
    }
}

/// Luma of one pixel: `floor((299 r + 587 g + 144 b) / 1000)`, saturated at
/// 255. The blue weight 0.144 (rather than the usual 0.114) is deliberate and
/// kept for output compatibility; the weights sum to 1.030, so pure white
/// saturates.
pub open spec fn luma(r: u8, g: u8, b: u8) -> u8 {
    let v: int = (299 * (r as int) + 587 * (g as int) + 144 * (b as int)) / 1000;
    if v > 255 {
        255u8
    } else {
        v as u8
    }
}

/// Pointwise luma of a pixel sequence.
pub open spec fn luma_seq(pix: Seq<RGBPixel>) -> Seq<u8> {
    Seq::new(pix.len(), |i: int| luma(pix[i].red, pix[i].green, pix[i].blue))
}

/// The pixel triplets of a raw interleaved RGB byte sequence; every third
/// byte starts a new pixel, and alpha is fixed at 0.
pub open spec fn triplets(raw: Seq<u8>) -> Seq<RGBPixel> {
    Seq::new(
        raw.len() / 3,
        |i: int| RGBPixel { red: raw[3 * i], green: raw[3 * i + 1], blue: raw[3 * i + 2], alpha: 0 },
    )
}

impl ImBuffer<RGBPixel> {
    /// Builds the color buffer from raw interleaved RGB bytes with channel
    /// maximum 255. Fails with `MalformedInput` exactly when the byte count
    /// is not a multiple of 3 or the triplet count is not `width * height`.
    pub fn construct(raw: Vec<u8>, width: u32, height: u32) -> (r: Result<Self, ImageError>)
        ensures
            raw@.len() % 3 != 0 ==> (r matches Err(e) && e == ImageError::MalformedInput),
            raw@.len() % 3 == 0 && raw@.len() / 3 != (width as nat) * (height as nat) ==> (
                r matches Err(e) && e == ImageError::MalformedInput
            ),
            raw@.len() % 3 == 0 && raw@.len() / 3 == (width as nat) * (height as nat) ==> (
                r matches Ok(b) && b.wf() && b.dims == Dims { rows: height, cols: width, max: 255 }
                    && b.buffer@ == triplets(raw@)
            ),
    {
        let len: usize = raw.len();
        if len % 3 != 0 {
            return Err(ImageError::MalformedInput);
        }
        let n: usize = len / 3;
        proof {
            assert((width as int) * (height as int) <= 0xffff_ffff * 0xffff_ffff) by (nonlinear_arith)
                requires
                    width <= 0xffff_ffffu32,
                    height <= 0xffff_ffffu32,
            ;
        }
        if (n as u64) != (width as u64) * (height as u64) {
            return Err(ImageError::MalformedInput);
        }
        assert(raw@.len() <= usize::MAX);
        let mut pixels: Vec<RGBPixel> = Vec::new();
        let mut i: usize = 0;
        while i < n
            invariant
                n == raw@.len() / 3,
                raw@.len() % 3 == 0,
                raw@.len() <= usize::MAX,
                i <= n,
                pixels@.len() == i,
                forall|j: int| 0 <= j < i ==> pixels@[j] == triplets(raw@)[j],
            decreases n - i,
        {
            proof {
                vstd::arithmetic::div_mod::lemma_fundamental_div_mod(raw@.len() as int, 3);
            }
            assert(3 * i + 2 < raw@.len());
            let base: usize = 3 * i;
            let p = RGBPixel { red: raw[base], green: raw[base + 1], blue: raw[base + 2], alpha: 0 };
            assert(p == triplets(raw@)[i as int]);
            pixels.push(p);
            i = i + 1;
        }
        assert(pixels@ =~= triplets(raw@));
        Ok(ImBuffer { dims: Dims { rows: height, cols: width, max: 255 }, buffer: pixels })
    }

    /// Reduces the color buffer to a luma raster of identical dimensions.
    /// Total: every pixel maps to `luma` of its channels.
    pub fn grayscale(&self) -> (r: ImBuffer<u8>)
        ensures
            r.dims == self.dims,
            r.buffer@ == luma_seq(self.buffer@),
            self.wf() ==> r.wf(),
    {
        let mut out: Vec<u8> = Vec::new();
        let mut i: usize = 0;
        while i < self.buffer.len()
            invariant
                i <= self.buffer@.len(),
                out@.len() == i,
                forall|j: int| 0 <= j < i ==> out@[j] == luma_seq(self.buffer@)[j],
            decreases self.buffer@.len() - i,
        {
            let p = self.buffer[i];
            let v: u32 = 299 * (p.red as u32) + 587 * (p.green as u32) + 144 * (p.blue as u32);
            let q: u32 = v / 1000;
            let l: u8 = if q > 255 {
                255
            } else {
                q as u8
            };
            assert(l == luma(p.red, p.green, p.blue));
            out.push(l);
            i = i + 1;
        }
        assert(out@ =~= luma_seq(self.buffer@));
        ImBuffer { dims: self.dims, buffer: out }
    }

    /// PNG decoding is not supported by this pipeline; every input is
    /// rejected with a decode failure.
    #[allow(unused_variables)]
    pub fn from_png(data: &[u8]) -> (r: Result<Self, ImageError>)
        ensures
            (r matches Err(e) && e == ImageError::Decode),
    {
        Err(ImageError::Decode)
    }
}

/// The luma raster has exactly one value per input pixel, and every value
/// lies in the 8-bit range.
pub proof fn lemma_grayscale_shape(pix: Seq<RGBPixel>, i: int)
    ensures
        luma_seq(pix).len() == pix.len(),
        0 <= i < pix.len() ==> 0 <= luma_seq(pix)[i] <= 255,
{
}

} // verus!
