use vstd::prelude::*;

use crate::buffer::ImBuffer;

verus! {

/// Absolute value of an integer.
pub open spec fn abs_int(x: int) -> int {
    if x < 0 {
        -x
    } else {
        x
    }
}

/// Saturation of a non-negative magnitude to the 8-bit range.
pub open spec fn clamp_255(x: int) -> int {
    if x > 255 {
        255
    } else {
        x
    }
}

/// Horizontal gradient at flat index `loc` of a raster of width `w`, by
/// correlation (kernels are not flipped) with the fixed 3-by-3 kernel
/// `[-1 0 1 / 2 0 -2 / -1 0 1]` over the 8 neighbors plus center.
pub open spec fn sobel_gx(s: Seq<u8>, w: int, loc: int) -> int {
    -(s[loc - w - 1] as int) + (s[loc - w + 1] as int) + 2 * (s[loc - 1] as int) - 2 * (s[loc
        + 1] as int) - (s[loc + w - 1] as int) + (s[loc + w + 1] as int)
}

/// Vertical gradient at flat index `loc`, by correlation with the fixed
/// 3-by-3 kernel `[1 2 1 / 0 0 0 / -1 -2 -1]`.
pub open spec fn sobel_gy(s: Seq<u8>, w: int, loc: int) -> int {
    (s[loc - w - 1] as int) + 2 * (s[loc - w] as int) + (s[loc - w + 1] as int) - (s[loc + w
        - 1] as int) - 2 * (s[loc + w] as int) - (s[loc + w + 1] as int)
}

/// L1 gradient magnitude at `loc`, saturated to `[0, 255]`.
pub open spec fn sobel_mag(s: Seq<u8>, w: int, loc: int) -> int {
    clamp_255(abs_int(sobel_gx(s, w, loc)) + abs_int(sobel_gy(s, w, loc)))
}

/// Whether flat index `loc` lies on the outermost row or column of a raster
/// of width `w` and height `h`.
pub open spec fn is_border(w: int, h: int, loc: int) -> bool {
    let row: int = loc / w;
    let col: int = loc % w;
    row == 0 || row == h - 1 || col == 0 || col == w - 1
}

/// One cell of the gradient raster: border cells are not computed and take
/// the sentinel; interior cells take the saturated magnitude.
pub open spec fn sobel_value(s: Seq<u8>, w: int, h: int, sentinel: u8, loc: int) -> u8 {
    if is_border(w, h, loc) {
        sentinel
    } else {
        sobel_mag(s, w, loc) as u8
    }
}

/// The gradient raster of a `w` by `h` luma raster `s`.
pub open spec fn sobel_seq(s: Seq<u8>, w: int, h: int, sentinel: u8) -> Seq<u8> {
    Seq::new((w * h) as nat, |loc: int| sobel_value(s, w, h, sentinel, loc))
}

impl ImBuffer<u8> {
    /// Sobel gradient-magnitude raster of this luma raster, with an explicit
    /// sentinel for the uncomputed border cells.
    pub fn sobel_with_sentinel(&self, sentinel: u8) -> (r: ImBuffer<u8>)
        requires
            self.wf(),
        ensures
            r.wf(),
            r.dims == self.dims,
            r.buffer@ == sobel_seq(
                self.buffer@,
                self.dims.cols as int,
                self.dims.rows as int,
                sentinel,
            ),
    {
        let cols: usize = self.dims.cols as usize;
        let rows: usize = self.dims.rows as usize;
        let ghost gsp: Seq<u8> = sobel_seq(
            self.buffer@,
            self.dims.cols as int,
            self.dims.rows as int,
            sentinel,
        );
        let _len: usize = self.buffer.len();
        assert(self.buffer@.len() <= usize::MAX);
        let mut out: Vec<u8> = Vec::new();
        let mut row: usize = 0;
        while row < rows
            invariant
                self.wf(),
                self.buffer@.len() <= usize::MAX,
                cols == self.dims.cols,
                rows == self.dims.rows,
                gsp == sobel_seq(self.buffer@, cols as int, rows as int, sentinel),
                row <= rows,
                out@.len() == row * cols,
                forall|j: int| 0 <= j < out@.len() ==> out@[j] == gsp[j],
            decreases rows - row,
        {
            let mut col: usize = 0;
            while col < cols
                invariant
                    self.wf(),
                    self.buffer@.len() <= usize::MAX,
                    cols == self.dims.cols,
                    rows == self.dims.rows,
                    gsp == sobel_seq(self.buffer@, cols as int, rows as int, sentinel),
                    row < rows,
                    col <= cols,
                    out@.len() == row * cols + col,
                    forall|j: int| 0 <= j < out@.len() ==> out@[j] == gsp[j],
                decreases cols - col,
            {
                proof {
                    assert((row as int) * (cols as int) + (col as int) < (cols as int) * (
                    rows as int)) by (nonlinear_arith)
                        requires
                            0 <= row as int,
                            0 <= col as int,
                            (row as int) < (rows as int),
                            (col as int) < (cols as int),
                    ;
                }
                let i: usize = row * cols + col;
                proof {
                    vstd::arithmetic::div_mod::lemma_fundamental_div_mod_converse(
                        i as int,
                        cols as int,
                        row as int,
                        col as int,
                    );
                    assert(gsp[i as int] == sobel_value(
                        self.buffer@,
                        cols as int,
                        rows as int,
                        sentinel,
                        i as int,
                    ));
                }
                let v: u8 = if row == 0 || row + 1 == rows || col == 0 || col + 1 == cols {
                    assert(is_border(cols as int, rows as int, i as int));
                    sentinel
                } else {
                    proof {
                        assert((row as int) * (cols as int) + (col as int) >= (cols as int) + 1
                            && (row as int) * (cols as int) + (col as int) + (cols as int) + 1 < (
                        cols as int) * (rows as int)) by (nonlinear_arith)
                            requires
                                1 <= row as int,
                                (row as int) + 2 <= rows as int,
                                1 <= col as int,
                                (col as int) + 2 <= cols as int,
                        ;
                    }
                    let a = self.buffer[i - cols - 1] as i32;
                    let b = self.buffer[i - cols] as i32;
                    let c = self.buffer[i - cols + 1] as i32;
                    let d = self.buffer[i - 1] as i32;
                    let f = self.buffer[i + 1] as i32;
                    let g = self.buffer[i + cols - 1] as i32;
                    let hh = self.buffer[i + cols] as i32;
                    let ii = self.buffer[i + cols + 1] as i32;
                    let gx: i32 = -a + c + 2 * d - 2 * f - g + ii;
                    let gy: i32 = a + 2 * b + c - g - 2 * hh - ii;
                    assert(gx as int == sobel_gx(self.buffer@, cols as int, i as int));
                    assert(gy as int == sobel_gy(self.buffer@, cols as int, i as int));
                    let gxa: i32 = if gx < 0 {
                        -gx
                    } else {
                        gx
                    };
                    let gya: i32 = if gy < 0 {
                        -gy
                    } else {
                        gy
                    };
                    let m: i32 = gxa + gya;
                    if m > 255 {
                        255
                    } else {
                        m as u8
                    }
                };
                assert(v == gsp[i as int]);
                out.push(v);
                col = col + 1;
            }
            proof {
                assert((row as int) * (cols as int) + (cols as int) == ((row as int) + 1) * (
                cols as int)) by (nonlinear_arith);
            }
            row = row + 1;
        }
        proof {
            assert(out@.len() == gsp.len()) by (nonlinear_arith)
                requires
                    out@.len() == (rows as int) * (cols as int),
                    gsp.len() == ((cols as int) * (rows as int)) as nat,
            ;
            assert(out@ =~= gsp);
        }
        ImBuffer { dims: self.dims, buffer: out }
    }

    /// Sobel gradient raster with the default border sentinel 0.
    pub fn sobel(&self) -> (r: ImBuffer<u8>)
        requires
            self.wf(),
        ensures
            r.wf(),
            r.dims == self.dims,
            r.buffer@ == sobel_seq(self.buffer@, self.dims.cols as int, self.dims.rows as int, 0),
    {
        self.sobel_with_sentinel(0)
    }
}

/// Shape and cases of the gradient raster: it has one cell per input cell;
/// every border cell equals the sentinel; every interior cell equals the
/// saturated L1 magnitude of the two directional gradients.
pub proof fn lemma_sobel_cases(s: Seq<u8>, w: int, h: int, sentinel: u8, loc: int)
    requires
        0 <= w * h,
    ensures
        sobel_seq(s, w, h, sentinel).len() == w * h,
        0 <= loc < w * h && is_border(w, h, loc) ==> sobel_seq(s, w, h, sentinel)[loc] == sentinel,
        0 <= loc < w * h && !is_border(w, h, loc) ==> sobel_seq(s, w, h, sentinel)[loc] == clamp_255(
            abs_int(sobel_gx(s, w, loc)) + abs_int(sobel_gy(s, w, loc)),
        ),
{
}

/// Edge detection is a pure function of the luma raster: two runs of `sobel`
/// on the same input yield identical gradient rasters.
pub proof fn lemma_sobel_deterministic(
    l: ImBuffer<u8>,
    r1: ImBuffer<u8>,
    r2: ImBuffer<u8>,
    sentinel: u8,
)
    requires
        r1.buffer@ == sobel_seq(l.buffer@, l.dims.cols as int, l.dims.rows as int, sentinel),
        r2.buffer@ == sobel_seq(l.buffer@, l.dims.cols as int, l.dims.rows as int, sentinel),
    ensures
        r1.buffer@ == r2.buffer@,
{
}

} // verus!
