use vstd::prelude::*;

use crate::buffer::ImBuffer;
use crate::pixel::RGBPixel;
use crate::text::{
    build_header, dec_digits, header_chars, lemma_header_parses, parse_header_spec, u32_to_dec,
    RasterKind,
};

verus! {

/// Text of one single-channel cell: the value followed by a space.
pub open spec fn gray_cell_chars(v: u8) -> Seq<char> {
    dec_digits(v as nat) + seq![' ']
}

/// Text of one color cell: red, green and blue, each followed by a space;
/// alpha is omitted.
pub open spec fn color_cell_chars(p: RGBPixel) -> Seq<char> {
    dec_digits(p.red as nat) + seq![' '] + dec_digits(p.green as nat) + seq![' '] + dec_digits(
        p.blue as nat,
    ) + seq![' ']
}

/// The line break that closes an image row: one newline after every `w`-th
/// value, nothing elsewhere.
pub open spec fn row_break(w: nat, i: nat) -> Seq<char> {
    if w != 0 && ((i + 1) as int) % (w as int) == 0 {
        seq!['\n']
    } else {
        Seq::<char>::empty()
    }
}

/// Body text of the first `n` values of a single-channel raster of width `w`.
pub open spec fn gray_body_chars(vals: Seq<u8>, w: nat, n: nat) -> Seq<char>
    decreases n,
{
    if n == 0 {
        Seq::<char>::empty()
    } else {
        gray_body_chars(vals, w, (n - 1) as nat) + gray_cell_chars(vals[n - 1]) + row_break(
            w,
            (n - 1) as nat,
        )
    }
}

/// Body text of the first `n` pixels of a color raster of width `w`.
pub open spec fn color_body_chars(pix: Seq<RGBPixel>, w: nat, n: nat) -> Seq<char>
    decreases n,
{
    if n == 0 {
        Seq::<char>::empty()
    } else {
        color_body_chars(pix, w, (n - 1) as nat) + color_cell_chars(pix[n - 1]) + row_break(
            w,
            (n - 1) as nat,
        )
    }
}

/// The whole text of a color raster: header, then all pixels row by row.
pub open spec fn ppm_chars(buf: ImBuffer<RGBPixel>) -> Seq<char> {
    header_chars(
        RasterKind::Color,
        buf.dims.cols as nat,
        buf.dims.rows as nat,
        buf.dims.max as nat,
    ) + color_body_chars(buf.buffer@, buf.dims.cols as nat, buf.buffer@.len())
}

/// The whole text of a single-channel raster: header, then all values row by
/// row.
pub open spec fn pgm_chars(buf: ImBuffer<u8>) -> Seq<char> {
    header_chars(
        RasterKind::Gray,
        buf.dims.cols as nat,
        buf.dims.rows as nat,
        buf.dims.max as nat,
    ) + gray_body_chars(buf.buffer@, buf.dims.cols as nat, buf.buffer@.len())
}

impl ImBuffer<RGBPixel> {
    /// Renders the color raster as text: the `P3` header, then the pixels as
    /// space-separated channel values with a line break after each image row.
    pub fn to_ppm(&self) -> (s: String)
        ensures
            s@ == ppm_chars(*self),
    {
        let mut s = build_header(RasterKind::Color, self.dims.cols, self.dims.rows, self.dims.max);
        let ghost hdr: Seq<char> = s@;
        let cols: usize = self.dims.cols as usize;
        let mut i: usize = 0;
        while i < self.buffer.len()
            invariant
                cols == self.dims.cols,
                i <= self.buffer@.len(),
                s@ == hdr + color_body_chars(self.buffer@, cols as nat, i as nat),
                hdr == header_chars(
                    RasterKind::Color,
                    self.dims.cols as nat,
                    self.dims.rows as nat,
                    self.dims.max as nat,
                ),
            decreases self.buffer@.len() - i,
        {
            let p = self.buffer[i];
            let rd = u32_to_dec(p.red as u32);
            s.append(rd.as_str());
            s.append(" ");
            let gd = u32_to_dec(p.green as u32);
            s.append(gd.as_str());
            s.append(" ");
            let bd = u32_to_dec(p.blue as u32);
            s.append(bd.as_str());
            s.append(" ");
            if cols != 0 && (i + 1) % cols == 0 {
                s.append("\n");
            }
            proof {
                reveal_strlit(" ");
                reveal_strlit("\n");
                assert(" "@ =~= seq![' ']);
                assert("\n"@ =~= seq!['\n']);
                assert(s@ =~= hdr + color_body_chars(self.buffer@, cols as nat, (i + 1) as nat));
            }
            i = i + 1;
        }
        s
    }
}

impl ImBuffer<u8> {
    /// Renders the single-channel raster as text: the `P2` header, then one
    /// value per pixel with a line break after each image row.
    pub fn to_ppm_gray(&self) -> (s: String)
        ensures
            s@ == pgm_chars(*self),
    {
        let mut s = build_header(RasterKind::Gray, self.dims.cols, self.dims.rows, self.dims.max);
        let ghost hdr: Seq<char> = s@;
        let cols: usize = self.dims.cols as usize;
        let mut i: usize = 0;
        while i < self.buffer.len()
            invariant
                cols == self.dims.cols,
                i <= self.buffer@.len(),
                s@ == hdr + gray_body_chars(self.buffer@, cols as nat, i as nat),
                hdr == header_chars(
                    RasterKind::Gray,
                    self.dims.cols as nat,
                    self.dims.rows as nat,
                    self.dims.max as nat,
                ),
            decreases self.buffer@.len() - i,
        {
            let v = self.buffer[i];
            let vd = u32_to_dec(v as u32);
            s.append(vd.as_str());
            s.append(" ");
            if cols != 0 && (i + 1) % cols == 0 {
                s.append("\n");
            }
            proof {
                reveal_strlit(" ");
                reveal_strlit("\n");
                assert(" "@ =~= seq![' ']);
                assert("\n"@ =~= seq!['\n']);
                assert(s@ =~= hdr + gray_body_chars(self.buffer@, cols as nat, (i + 1) as nat));
            }
            i = i + 1;
        }
        s
    }
}

/// Round trip over whole files: the text of a color raster parses back to
/// exactly its variant, dimensions and channel maximum.
pub proof fn lemma_ppm_round_trip(buf: ImBuffer<RGBPixel>)
    ensures
        parse_header_spec(ppm_chars(buf)) == Some(
            (RasterKind::Color, buf.dims.cols, buf.dims.rows, buf.dims.max),
        ),
{
    lemma_header_parses(
        RasterKind::Color,
        buf.dims.cols,
        buf.dims.rows,
        buf.dims.max,
        color_body_chars(buf.buffer@, buf.dims.cols as nat, buf.buffer@.len()),
    );
}

/// Round trip over whole files, single-channel variant.
pub proof fn lemma_pgm_round_trip(buf: ImBuffer<u8>)
    ensures
        parse_header_spec(pgm_chars(buf)) == Some(
            (RasterKind::Gray, buf.dims.cols, buf.dims.rows, buf.dims.max),
        ),
{
    lemma_header_parses(
        RasterKind::Gray,
        buf.dims.cols,
        buf.dims.rows,
        buf.dims.max,
        gray_body_chars(buf.buffer@, buf.dims.cols as nat, buf.buffer@.len()),
    );
}

} // verus!
