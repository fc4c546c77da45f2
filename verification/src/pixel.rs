use vstd::prelude::*;

verus! {

/// Dimensions and channel maximum of a raster image. `cols` is the width,
/// `rows` the height, and `max` the channel maximum (conventionally 255).
#[derive(Clone, Copy, Debug, PartialEq, Eq, Structural)]
pub struct Dims {
    pub rows: u32,
    pub cols: u32,
    pub max: u32,
}

impl Dims {
    pub fn width(&self) -> (w: u32)
        ensures
            w == self.cols,
    {
        self.cols
    }

    pub fn height(&self) -> (h: u32)
        ensures
            h == self.rows,
    {
        self.rows
    }

    pub fn set_width(&mut self, width: u32)
        ensures
            final(self).cols == width,
            final(self).rows == old(self).rows,
            final(self).max == old(self).max,
    {
        self.cols = width;
    }

    pub fn set_height(&mut self, height: u32)
        ensures
            final(self).rows == height,
            final(self).cols == old(self).cols,
            final(self).max == old(self).max,
    {
        self.rows = height;
    }

    pub fn new(width: u32, height: u32, max: u32) -> (d: Dims)
        ensures
            d.cols == width,
            d.rows == height,
            d.max == max,
    {
        Dims { rows: height, cols: width, max }
    }
}

/// One RGB sample. The alpha channel is stored for forward compatibility but
/// never consulted by any pipeline stage.
#[derive(Clone, Copy, Debug, PartialEq, Eq, Structural)]
pub struct RGBPixel {
    pub red: u8,
    pub green: u8,
    pub blue: u8,
    pub alpha: u8,
}

impl RGBPixel {
    /// Builds a pixel from the first three bytes of `in_slice` (red, green,
    /// blue, in that order); alpha is fixed at 0.
    pub fn new(in_slice: &[u8]) -> (p: RGBPixel)
        requires
            in_slice@.len() >= 3,
        ensures
            p.red == in_slice@[0],
            p.green == in_slice@[1],
            p.blue == in_slice@[2],
            p.alpha == 0,
    {
        RGBPixel { red: in_slice[0], green: in_slice[1], blue: in_slice[2], alpha: 0 }
    }

    /// Channel values already lie in the 8-bit range, so there is nothing to
    /// clamp; the pixel is left unchanged.
    pub fn clamp(&mut self)
        ensures
            *final(self) == *old(self),
    {
    }
}

/// Channel bit depth of a raster.
#[derive(Clone, Copy, Debug, PartialEq, Eq, Structural)]
pub enum Bits {
    Eight,
    Sixteen,
}

impl Bits {
    /// The largest channel value representable at this bit depth.
    pub fn value(&self) -> (v: i32)
        ensures
            self is Eight ==> v == 255,
            self is Sixteen ==> v == 65535,
    {
        match self {
            Bits::Eight => 255,
            Bits::Sixteen => 65535,
        }
    }
}

} // verus!
