//! Cell geometry derived from font metrics.
//!
//! Font metrics arrive from the font capability as exact rationals.  The
//! window derives integer cell dimensions (ceiling of the scaled metrics),
//! the decoration rows used for underline and strikethrough, and the
//! fit-scale applied to glyphs that overflow their cell span.

use crate::frac::Frac;
use vstd::prelude::*;

verus! {

/// Largest magnitude admitted for metric numerators and denominators.
/// Keeps every intermediate product comfortably inside `i64`.
pub const METRIC_BOUND: i64 = 0x10_0000;

/// Metrics of the default font after scaling: the nominal cell width and
/// height in pixels, and the descender offset (typically negative, measured
/// from the cell's bottom edge).
#[derive(Clone, Copy, Debug)]
pub struct FontMetrics {
    pub cell_width: Frac,
    pub cell_height: Frac,
    pub descender: Frac,
}

impl FontMetrics {
    pub open spec fn wf(self) -> bool {
        &&& self.cell_width.wf()
        &&& self.cell_height.wf()
        &&& self.descender.wf()
        &&& 0 < self.cell_width.num <= METRIC_BOUND
        &&& 0 < self.cell_width.den <= METRIC_BOUND
        &&& 0 < self.cell_height.num <= METRIC_BOUND
        &&& 0 < self.cell_height.den <= METRIC_BOUND
        &&& -METRIC_BOUND <= self.descender.num <= 0
        &&& 0 < self.descender.den <= METRIC_BOUND
        // the descender never reaches below the cell: cell_height + descender >= 0
        &&& self.cell_height.num * self.descender.den + self.descender.num * self.cell_height.den
            >= 0
    }
}

/// Ceiling of a nonnegative fraction, as used to derive cell dimensions.
pub open spec fn spec_ceil(f: Frac) -> int {
    (f.num + f.den - 1) / (f.den as int)
}

/// Rounds a nonnegative metric up to a whole number of pixels.
pub fn ceil_frac(f: &Frac) -> (r: u64)
    requires
        f.wf(),
        0 <= f.num <= METRIC_BOUND,
        f.den <= METRIC_BOUND,
    ensures
        r == spec_ceil(*f),
        r <= 2 * METRIC_BOUND,
{
    let total: u64 = (f.num as u64) + (f.den as u64) - 1;
    let r: u64 = total / (f.den as u64);
    proof {
        assert(r == spec_ceil(*f));
        assert((f.num + f.den - 1) / (f.den as int) <= 2 * METRIC_BOUND) by (nonlinear_arith)
            requires
                0 <= f.num <= METRIC_BOUND,
                0 < f.den <= METRIC_BOUND,
        ;
    }
    r
}

/// The pixel rows, relative to a cell's top edge, at which underline and
/// strikethrough decorations are drawn.
#[derive(Clone, Copy, Debug, PartialEq, Eq, Structural)]
pub struct DecorationRows {
    pub descender_row: i64,
    pub descender_plus_one: i64,
    pub descender_plus_two: i64,
    pub strike_row: i64,
}

/// Truncated value of `cell_height + descender`: the base decoration row.
pub open spec fn spec_descender_row(cell_height: int, descender: Frac) -> int {
    (cell_height * descender.den + descender.num) / (descender.den as int)
}

/// Derives the decoration rows from a cell height and the descender offset.
/// The single underline sits one row below the base row, the double
/// underline uses the base row and the row two below it, and the
/// strikethrough sits at half the base row; all are clamped into the cell.
pub fn compute_decoration_rows(cell_height: u64, descender: &Frac) -> (r: DecorationRows)
    requires
        1 <= cell_height <= 2 * METRIC_BOUND,
        descender.wf(),
        -METRIC_BOUND <= descender.num <= 0,
        descender.den <= METRIC_BOUND,
        cell_height * descender.den + descender.num >= 0,
    ensures
        r.descender_row == spec_descender_row(cell_height as int, *descender),
        r.descender_plus_one == vstd::math::min(1 + r.descender_row, cell_height - 1),
        r.descender_plus_two == vstd::math::min(2 + r.descender_row, cell_height - 1),
        r.strike_row == r.descender_row / 2,
        0 <= r.descender_row <= cell_height,
{
    proof {
        assert(cell_height * descender.den <= 2 * METRIC_BOUND * METRIC_BOUND) by (nonlinear_arith)
            requires
                1 <= cell_height <= 2 * METRIC_BOUND,
                0 < descender.den <= METRIC_BOUND,
        ;
        assert(cell_height * descender.den >= descender.den) by (nonlinear_arith)
            requires
                1 <= cell_height,
                0 < descender.den,
        ;
    }
    let total: i64 = (cell_height as i64) * descender.den + descender.num;
    let row: u64 = (total as u64) / (descender.den as u64);
    proof {
        assert(row == spec_descender_row(cell_height as int, *descender));
        assert((cell_height * descender.den + descender.num) / (descender.den as int) <= cell_height)
            by (nonlinear_arith)
            requires
                0 < descender.den,
                descender.num <= 0,
                cell_height >= 1,
                cell_height * descender.den + descender.num >= 0,
        ;
    }
    let descender_row: i64 = row as i64;
    let cell_top: i64 = (cell_height as i64) - 1;
    let descender_plus_one: i64 =
        if 1 + descender_row < cell_top { 1 + descender_row } else { cell_top };
    let descender_plus_two: i64 =
        if 2 + descender_row < cell_top { 2 + descender_row } else { cell_top };
    let strike_row: i64 = descender_row / 2;
    DecorationRows { descender_row, descender_plus_one, descender_plus_two, strike_row }
}

/// Largest pixel measure admitted in glyph geometry.
pub const GLYPH_DIM_BOUND: u32 = 0xFFFF;

/// The fit-scale rule: let `advance_per_cell = x_advance / num_cells`.
/// If `advance_per_cell > cell_width`, the glyph overflows its cell span
/// horizontally and is shrunk by `num_cells * cell_width / x_advance`.
/// Otherwise, if the raw bitmap is taller than the cell, it is shrunk by
/// `cell_height / glyph_height`.  Otherwise the glyph is left at scale 1.
pub open spec fn spec_fit_scale(
    x_advance: int,
    num_cells: int,
    cell_width: int,
    glyph_height: int,
    cell_height: int,
) -> Frac {
    if x_advance > num_cells * cell_width {
        Frac { num: (num_cells * cell_width) as i64, den: x_advance as i64 }
    } else if glyph_height > cell_height {
        Frac { num: cell_height as i64, den: glyph_height as i64 }
    } else {
        Frac { num: 1, den: 1 }
    }
}

/// Computes the fit-scale for one glyph.
pub fn compute_fit_scale(
    x_advance: u32,
    num_cells: u32,
    cell_width: u32,
    glyph_height: u32,
    cell_height: u32,
) -> (r: Frac)
    requires
        1 <= num_cells <= GLYPH_DIM_BOUND,
        x_advance <= GLYPH_DIM_BOUND,
        1 <= cell_width <= GLYPH_DIM_BOUND,
        glyph_height <= GLYPH_DIM_BOUND,
        1 <= cell_height <= GLYPH_DIM_BOUND,
    ensures
        r == spec_fit_scale(
            x_advance as int,
            num_cells as int,
            cell_width as int,
            glyph_height as int,
            cell_height as int,
        ),
        r.wf(),
        0 < r.num <= r.den,
        r.den <= GLYPH_DIM_BOUND,
{
    proof {
        assert(1 <= num_cells * cell_width <= GLYPH_DIM_BOUND * GLYPH_DIM_BOUND)
            by (nonlinear_arith)
            requires
                1 <= num_cells <= GLYPH_DIM_BOUND,
                1 <= cell_width <= GLYPH_DIM_BOUND,
        ;
    }
    let span: u64 = (num_cells as u64) * (cell_width as u64);
    if (x_advance as u64) > span {
        Frac { num: span as i64, den: x_advance as i64 }
    } else if glyph_height > cell_height {
        Frac { num: cell_height as i64, den: glyph_height as i64 }
    } else {
        Frac { num: 1, den: 1 }
    }
}

/// A geometric measure multiplied by a fit-scale, kept exact.
pub fn scale_measure(v: i64, s: &Frac) -> (r: Frac)
    requires
        s.wf(),
        -0x1_0000_0000 <= v <= 0x1_0000_0000,
        -GLYPH_DIM_BOUND <= s.num <= GLYPH_DIM_BOUND,
        s.den <= GLYPH_DIM_BOUND,
    ensures
        r.wf(),
        r.num == v * s.num,
        r.den == s.den,
{
    proof {
        assert(-0x1_0000_0000_i64 * GLYPH_DIM_BOUND <= v * s.num <= 0x1_0000_0000_i64
            * GLYPH_DIM_BOUND) by (nonlinear_arith)
            requires
                -0x1_0000_0000 <= v <= 0x1_0000_0000,
                -GLYPH_DIM_BOUND <= s.num <= GLYPH_DIM_BOUND,
        ;
    }
    Frac { num: v * s.num, den: s.den }
}

/// Dimension of a bitmap after resampling by a fit-scale: the scaled
/// measure rounded down, but never below one pixel for a nonempty bitmap.
pub open spec fn spec_scaled_dim(v: int, s: Frac) -> int {
    let scaled = (v * s.num) / (s.den as int);
    if scaled < 1 {
        1
    } else {
        scaled
    }
}

/// Resamples one bitmap dimension by the fit-scale.
pub fn scale_dimension(v: u32, s: &Frac) -> (r: u32)
    requires
        1 <= v <= GLYPH_DIM_BOUND,
        s.wf(),
        0 < s.num <= s.den,
        s.den <= GLYPH_DIM_BOUND,
    ensures
        r == spec_scaled_dim(v as int, *s),
        1 <= r <= GLYPH_DIM_BOUND,
{
    proof {
        assert(0 < v * s.num <= GLYPH_DIM_BOUND * GLYPH_DIM_BOUND) by (nonlinear_arith)
            requires
                1 <= v <= GLYPH_DIM_BOUND,
                0 < s.num <= GLYPH_DIM_BOUND,
        ;
    }
    let prod: u64 = (v as u64) * (s.num as u64);
    let scaled: u64 = prod / (s.den as u64);
    proof {
        assert((v * s.num) / (s.den as int) <= v) by (nonlinear_arith)
            requires
                0 < s.den,
                0 < s.num <= s.den,
                1 <= v,
        ;
    }
    if scaled < 1 {
        1
    } else {
        scaled as u32
    }
}

} // verus!
