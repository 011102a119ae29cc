//! Damage-tracked line renderer: turns one dirty terminal line into draw
//! primitives — background clears, underline and strikethrough lines, and
//! glyph blits — using the glyph cache and texture atlas.
//!
//! Shaping and rasterization are external capabilities: their results enter
//! as plain values (`ClusterShaping`, `RasterSource`).  A cluster without
//! shaping data or a glyph without rasterization data is skipped and the
//! frame continues degraded, as a failed shape or rasterization would be.

use crate::atlas::{OutOfTextureSpace, Sprite, TextureAtlas};
use crate::color::{
    compute_cell_fg_bg, resolve_cluster_fg, rgbcolor_to_window_color, spec_brightened_attr,
    spec_cell_fg_bg, Color, ColorPalette, CursorPosition, RgbColor,
};
use crate::frac::Frac;
use crate::glyphcache::{CachedGlyph, GlyphCache, GlyphKey, RasterizedGlyph, ShapedGlyphMetrics};
use crate::line::{CellCluster, Underline};
use crate::metrics::{spec_fit_scale, spec_scaled_dim, DecorationRows, GLYPH_DIM_BOUND};
use vstd::prelude::*;

verus! {

/// How a sprite is composited onto the surface: straight alpha-over for
/// color glyphs, or tinted by the foreground color for monochrome glyphs.
#[derive(Clone, Copy, Debug, PartialEq, Eq, Structural)]
pub enum CompositeOp {
    Over,
    MultiplyThenOver(Color),
}

/// One draw primitive emitted by the renderer.
#[derive(Clone, Copy, Debug, PartialEq, Eq, Structural)]
pub enum DrawOp {
    ClearRect { x: i64, y: i64, width: i64, height: i64, color: Color },
    DrawLine { x1: i64, x2: i64, y: i64, color: Color },
    DrawSprite {
        x: i64,
        y: i64,
        cell_col: usize,
        cell_row: usize,
        sprite: Sprite,
        slice_cell: u32,
        num_cells: u32,
        op: CompositeOp,
    },
}

/// One shaped glyph: which cluster character started it, which font and
/// glyph id to rasterize, and its geometry.
#[derive(Clone, Copy, Debug, PartialEq, Eq, Structural)]
pub struct GlyphInfo {
    pub cluster_offset: usize,
    pub font_idx: usize,
    pub glyph_pos: u32,
    pub metrics: ShapedGlyphMetrics,
}

/// Shaping result for one cluster: the style the font capability matched
/// for the cluster's attributes, that style's configured foreground if any,
/// and the ordered glyphs.
pub struct ClusterShaping {
    pub style: usize,
    pub style_foreground: Option<RgbColor>,
    pub glyphs: Vec<GlyphInfo>,
}

/// The window geometry a paint pass works in.
#[derive(Clone, Copy, Debug)]
pub struct RenderMetrics {
    pub cell_width: u32,
    pub cell_height: u32,
    pub dec_rows: DecorationRows,
    pub pixel_width: u32,
    pub pixel_height: u32,
}

impl RenderMetrics {
    pub open spec fn wf(self) -> bool {
        &&& 1 <= self.cell_width <= GLYPH_DIM_BOUND
        &&& 1 <= self.cell_height <= GLYPH_DIM_BOUND
        &&& self.pixel_width <= 0x100_0000
        &&& self.pixel_height <= 0x100_0000
        &&& 0 <= self.dec_rows.descender_row <= self.cell_height
        &&& 0 <= self.dec_rows.descender_plus_one <= self.cell_height
        &&& 0 <= self.dec_rows.descender_plus_two <= self.cell_height
        &&& 0 <= self.dec_rows.strike_row <= self.cell_height
    }
}

/// Rasterization results, keyed by glyph.  The renderer consults this on a
/// cache miss; a missing key means the glyph failed to rasterize.
pub struct RasterSource {
    pub entries: Vec<(GlyphKey, RasterizedGlyph)>,
}

impl RasterSource {
    pub open spec fn contains_key(self, key: GlyphKey) -> bool {
        exists|i: int| 0 <= i < self.entries@.len() && self.entries@[i].0 == key
    }

    pub open spec fn spec_get(self, key: GlyphKey) -> RasterizedGlyph {
        let i = choose|i: int| 0 <= i < self.entries@.len() && self.entries@[i].0 == key;
        self.entries@[i].1
    }

    pub open spec fn keys_unique(self) -> bool {
        forall|i: int, j: int|
            0 <= i < self.entries@.len() && 0 <= j < self.entries@.len() && i != j
                ==> (#[trigger] self.entries@[i]).0 != (#[trigger] self.entries@[j]).0
    }

    /// Looks up the rasterization of one glyph.
    pub fn lookup(&self, key: &GlyphKey) -> (r: Option<RasterizedGlyph>)
        requires
            self.keys_unique(),
        ensures
            match r {
                Some(g) => self.contains_key(*key) && g == self.spec_get(*key),
                None => !self.contains_key(*key),
            },
    {
        let n = self.entries.len();
        let mut i: usize = 0;
        while i < n
            invariant
                n == self.entries@.len(),
                0 <= i <= n,
                self.keys_unique(),
                forall|j: int| 0 <= j < i ==> (#[trigger] self.entries@[j]).0 != *key,
            decreases n - i,
        {
            if self.entries[i].0.font_idx == key.font_idx && self.entries[i].0.glyph_pos
                == key.glyph_pos && self.entries[i].0.style == key.style {
                return Some(self.entries[i].1);
            }
            i = i + 1;
        }
        None
    }
}

/// The resolved colors of a cluster before cursor/selection overrides: the
/// foreground after brightening and style defaults, the background from the
/// palette, swapped when reverse video is set.
pub open spec fn spec_cluster_colors(
    palette: ColorPalette,
    attrs: crate::line::CellAttributes,
    style_foreground: Option<RgbColor>,
) -> (Color, Color) {
    let fg = match attrs.foreground {
        crate::color::ColorAttribute::Default => match style_foreground {
            Some(c) => c,
            None => palette.foreground,
        },
        _ => palette.spec_resolve(
            spec_brightened_attr(attrs.foreground, attrs.bold),
            palette.foreground,
        ),
    };
    let bg = palette.spec_resolve(attrs.background, palette.background);
    let (fg, bg) = if attrs.reverse {
        (bg, fg)
    } else {
        (fg, bg)
    };
    (
        Color { red: fg.red, green: fg.green, blue: fg.blue, alpha: 0xff },
        Color { red: bg.red, green: bg.green, blue: bg.blue, alpha: 0xff },
    )
}

/// Resolves a cluster's colors.
pub fn cluster_colors(
    palette: &ColorPalette,
    attrs: &crate::line::CellAttributes,
    style_foreground: Option<RgbColor>,
) -> (r: (Color, Color))
    requires
        palette.wf(),
    ensures
        r == spec_cluster_colors(*palette, *attrs, style_foreground),
{
    let fg = resolve_cluster_fg(palette, attrs.foreground, attrs.bold, style_foreground);
    let bg = palette.resolve_bg(attrs.background);
    let (fg, bg) = if attrs.reverse {
        (bg, fg)
    } else {
        (fg, bg)
    };
    (rgbcolor_to_window_color(fg), rgbcolor_to_window_color(bg))
}

/// The clear and decoration primitives for one cell, in emission order.
pub open spec fn spec_cell_ops(
    m: RenderMetrics,
    line_idx: int,
    cell_idx: int,
    fg: Color,
    bg: Color,
    underline: Underline,
    strikethrough: bool,
) -> Seq<DrawOp> {
    let x = cell_idx * m.cell_width;
    let y = line_idx * m.cell_height;
    let clear = seq![
        DrawOp::ClearRect {
            x: x as i64,
            y: y as i64,
            width: m.cell_width as i64,
            height: m.cell_height as i64,
            color: bg,
        },
    ];
    let under = match underline {
        Underline::Off => Seq::<DrawOp>::empty(),
        Underline::Single => seq![
            DrawOp::DrawLine {
                x1: x as i64,
                x2: (x + m.cell_width) as i64,
                y: (y + m.dec_rows.descender_plus_one) as i64,
                color: fg,
            },
        ],
        Underline::Double => seq![
            DrawOp::DrawLine {
                x1: x as i64,
                x2: (x + m.cell_width) as i64,
                y: (y + m.dec_rows.descender_row) as i64,
                color: fg,
            },
            DrawOp::DrawLine {
                x1: x as i64,
                x2: (x + m.cell_width) as i64,
                y: (y + m.dec_rows.descender_plus_two) as i64,
                color: fg,
            },
        ],
    };
    let strike = if strikethrough {
        seq![
            DrawOp::DrawLine {
                x1: x as i64,
                x2: (x + m.cell_width) as i64,
                y: (y + m.dec_rows.strike_row) as i64,
                color: fg,
            },
        ]
    } else {
        Seq::<DrawOp>::empty()
    };
    clear + under + strike
}

/// Shape of the per-cell primitives: the clear covers exactly the cell in
/// the given background, and every line spans the cell on one of the rows
/// the underline or strikethrough rule names, in the given foreground.
proof fn lemma_cell_ops_shape(
    m: RenderMetrics,
    line_idx: int,
    cell_idx: int,
    fg: Color,
    bg: Color,
    u: Underline,
    strike: bool,
)
    ensures
        forall|t: int|
            0 <= t < spec_cell_ops(m, line_idx, cell_idx, fg, bg, u, strike).len()
                ==> match #[trigger] spec_cell_ops(m, line_idx, cell_idx, fg, bg, u, strike)[t] {
                DrawOp::ClearRect { x, y, width, height, color } => x == (cell_idx
                    * m.cell_width) as i64 && width == m.cell_width as i64 && color == bg,
                DrawOp::DrawLine { x1, x2, y, color } => x1 == (cell_idx * m.cell_width) as i64
                    && x2 == (cell_idx * m.cell_width + m.cell_width) as i64 && color == fg && (
                (u is Single && y == (line_idx * m.cell_height
                    + m.dec_rows.descender_plus_one) as i64) || (u is Double && (y == (line_idx
                    * m.cell_height + m.dec_rows.descender_row) as i64 || y == (line_idx
                    * m.cell_height + m.dec_rows.descender_plus_two) as i64)) || (strike && y == (
                line_idx * m.cell_height + m.dec_rows.strike_row) as i64)),
                DrawOp::DrawSprite { .. } => false,
            },
{
    let ops = spec_cell_ops(m, line_idx, cell_idx, fg, bg, u, strike);
    assert forall|t: int| 0 <= t < ops.len() implies match #[trigger] ops[t] {
        DrawOp::ClearRect { x, y, width, height, color } => x == (cell_idx
            * m.cell_width) as i64 && width == m.cell_width as i64 && color == bg,
        DrawOp::DrawLine { x1, x2, y, color } => x1 == (cell_idx * m.cell_width) as i64 && x2 == (
        cell_idx * m.cell_width + m.cell_width) as i64 && color == fg && ((u is Single && y == (
        line_idx * m.cell_height + m.dec_rows.descender_plus_one) as i64) || (u is Double && (y
            == (line_idx * m.cell_height + m.dec_rows.descender_row) as i64 || y == (line_idx
            * m.cell_height + m.dec_rows.descender_plus_two) as i64)) || (strike && y == (line_idx
            * m.cell_height + m.dec_rows.strike_row) as i64)),
        DrawOp::DrawSprite { .. } => false,
    } by {
        match u {
            Underline::Off => {
                if strike {
                    assert(ops =~= seq![ops[0], ops[1]]);
                } else {
                    assert(ops =~= seq![ops[0]]);
                }
            },
            Underline::Single => {
                if strike {
                    assert(ops =~= seq![ops[0], ops[1], ops[2]]);
                } else {
                    assert(ops =~= seq![ops[0], ops[1]]);
                }
            },
            Underline::Double => {
                if strike {
                    assert(ops =~= seq![ops[0], ops[1], ops[2], ops[3]]);
                } else {
                    assert(ops =~= seq![ops[0], ops[1], ops[2]]);
                }
            },
        }
    }
}

/// An op stays inside the horizontal pixel band of one line: clears cover
/// exactly the cell band, decoration lines sit inside it, and sprite blits
/// belong to a cell of that line.
pub open spec fn op_in_row_band(op: DrawOp, line_idx: int, m: RenderMetrics) -> bool {
    let y0 = line_idx * m.cell_height;
    match op {
        DrawOp::ClearRect { y, height, .. } => y == y0 && height == m.cell_height,
        DrawOp::DrawLine { y, .. } => y0 <= y <= y0 + m.cell_height,
        DrawOp::DrawSprite { cell_row, .. } => cell_row == line_idx,
    }
}

/// An op stays inside the physical columns: nothing right of column
/// `num_cols` is painted (the separate right-margin clear excepted).
pub open spec fn op_within_columns(op: DrawOp, num_cols: int, m: RenderMetrics) -> bool {
    match op {
        DrawOp::ClearRect { x, width, .. } => 0 <= x && x + width <= num_cols * m.cell_width,
        DrawOp::DrawLine { x1, x2, .. } => 0 <= x1 && x2 <= num_cols * m.cell_width,
        DrawOp::DrawSprite { cell_col, .. } => cell_col < num_cols,
    }
}

/// A decoration line is justified at cluster `k`, column `c`: the cluster
/// asked for it (underline, strikethrough, or the hovered-hyperlink rule),
/// it spans exactly that cell, sits on the row the rule names, and is
/// drawn in the cell's final foreground color after cursor and selection
/// overrides of the cluster's resolved (brightened) foreground.
pub open spec fn spec_decoration_at(
    x1: int,
    x2: int,
    y: int,
    color: Color,
    m: RenderMetrics,
    line_idx: int,
    num_cols: int,
    clusters: Seq<CellCluster>,
    shaped: Seq<ClusterShaping>,
    cursor: CursorPosition,
    selection_start: int,
    selection_end: int,
    palette: ColorPalette,
    highlight: Option<u64>,
    k: int,
    c: int,
) -> bool {
    &&& 0 <= k < clusters.len() && k < shaped.len()
    &&& 0 <= c < num_cols
    &&& x1 == c * m.cell_width
    &&& x2 == c * m.cell_width + m.cell_width
    &&& ({
        let colors = spec_cluster_colors(palette, clusters[k].attrs, shaped[k].style_foreground);
        let fg = spec_cell_fg_bg(
            selection_start <= c < selection_end,
            line_idx == cursor.y && cursor.x == c,
            colors.0,
            colors.1,
            palette,
        ).0;
        color == fg
    })
    &&& ({
        let highlighted = match (clusters[k].attrs.hyperlink, highlight) {
            (Some(a), Some(b)) => a == b,
            _ => false,
        };
        let u = if highlighted && clusters[k].attrs.underline is Off {
            Underline::Single
        } else {
            clusters[k].attrs.underline
        };
        let y0 = line_idx * m.cell_height;
        ||| (u is Single && y == y0 + m.dec_rows.descender_plus_one)
        ||| (u is Double && (y == y0 + m.dec_rows.descender_row || y == y0
            + m.dec_rows.descender_plus_two))
        ||| (clusters[k].attrs.strikethrough && y == y0 + m.dec_rows.strike_row)
    })
}

/// A monochrome blit's tint is justified at cluster `k`: the cluster is
/// rendered and the tint is the cell's final foreground color after
/// cursor and selection overrides of the cluster's resolved (brightened)
/// foreground.  Color glyphs composite plain over and carry no tint.
pub open spec fn spec_blit_tint_at(
    cop: CompositeOp,
    cell_col: int,
    m: RenderMetrics,
    line_idx: int,
    clusters: Seq<CellCluster>,
    shaped: Seq<ClusterShaping>,
    cursor: CursorPosition,
    selection_start: int,
    selection_end: int,
    palette: ColorPalette,
    k: int,
) -> bool {
    &&& 0 <= k < clusters.len() && k < shaped.len()
    &&& match cop {
        CompositeOp::Over => true,
        CompositeOp::MultiplyThenOver(tint) => {
            let colors = spec_cluster_colors(
                palette,
                clusters[k].attrs,
                shaped[k].style_foreground,
            );
            tint == spec_cell_fg_bg(
                selection_start <= cell_col < selection_end,
                line_idx == cursor.y && cursor.x == cell_col,
                colors.0,
                colors.1,
                palette,
            ).0
        },
    }
}

/// A blit's tint is justified when some rendered cluster's final
/// foreground at that column is exactly the tint.
pub open spec fn spec_blit_tint_justified(
    cop: CompositeOp,
    cell_col: int,
    m: RenderMetrics,
    line_idx: int,
    clusters: Seq<CellCluster>,
    shaped: Seq<ClusterShaping>,
    cursor: CursorPosition,
    selection_start: int,
    selection_end: int,
    palette: ColorPalette,
) -> bool {
    exists|k: int|
        spec_blit_tint_at(
            cop, cell_col, m, line_idx, clusters, shaped, cursor, selection_start,
            selection_end, palette, k,
        )
}

/// A decoration line is justified when some cluster and covered column
/// asked for exactly it.
pub open spec fn spec_decoration_justified(
    x1: int,
    x2: int,
    y: int,
    color: Color,
    m: RenderMetrics,
    line_idx: int,
    num_cols: int,
    clusters: Seq<CellCluster>,
    shaped: Seq<ClusterShaping>,
    cursor: CursorPosition,
    selection_start: int,
    selection_end: int,
    palette: ColorPalette,
    highlight: Option<u64>,
) -> bool {
    exists|k: int, c: int|
        spec_decoration_at(
            x1, x2, y, color, m, line_idx, num_cols, clusters, shaped, cursor, selection_start,
            selection_end, palette, highlight, k, c,
        )
}

/// Every decoration line among the ops is justified, and every monochrome
/// blit is tinted with the covering cluster's final foreground.
pub open spec fn ops_decorations_justified(
    ops: Seq<DrawOp>,
    m: RenderMetrics,
    line_idx: int,
    num_cols: int,
    clusters: Seq<CellCluster>,
    shaped: Seq<ClusterShaping>,
    cursor: CursorPosition,
    selection_start: int,
    selection_end: int,
    palette: ColorPalette,
    highlight: Option<u64>,
) -> bool {
    forall|i: int|
        0 <= i < ops.len() ==> match #[trigger] ops[i] {
            DrawOp::DrawLine { x1, x2, y, color } => spec_decoration_justified(
                x1 as int,
                x2 as int,
                y as int,
                color,
                m,
                line_idx,
                num_cols,
                clusters,
                shaped,
                cursor,
                selection_start,
                selection_end,
                palette,
                highlight,
            ),
            DrawOp::DrawSprite { cell_col, op: cop, .. } => spec_blit_tint_justified(
                cop,
                cell_col as int,
                m,
                line_idx,
                clusters,
                shaped,
                cursor,
                selection_start,
                selection_end,
                palette,
            ),
            _ => true,
        }
}

/// Every op appended past `start` stays in the band of `line_idx`.
pub open spec fn ops_confined(ops: Seq<DrawOp>, start: int, line_idx: int, m: RenderMetrics) -> bool {
    forall|i: int| start <= i < ops.len() ==> op_in_row_band(#[trigger] ops[i], line_idx, m)
}

/// Emits the clear and decoration primitives for one cell.
pub fn push_cell_ops(
    m: &RenderMetrics,
    line_idx: usize,
    cell_idx: usize,
    fg: Color,
    bg: Color,
    underline: Underline,
    strikethrough: bool,
    ops: &mut Vec<DrawOp>,
)
    requires
        m.wf(),
        line_idx <= 0x100_0000,
        cell_idx <= 0x100_0000,
    ensures
        final(ops)@ =~= old(ops)@ + spec_cell_ops(
            *m,
            line_idx as int,
            cell_idx as int,
            fg,
            bg,
            underline,
            strikethrough,
        ),
        ops_confined(final(ops)@, old(ops)@.len() as int, line_idx as int, *m),
{
    proof {
        assert(cell_idx * m.cell_width <= 0x100_0000 * (GLYPH_DIM_BOUND as int))
            by (nonlinear_arith)
            requires
                0 <= cell_idx <= 0x100_0000,
                0 <= m.cell_width <= GLYPH_DIM_BOUND,
        ;
        assert(line_idx * m.cell_height <= 0x100_0000 * (GLYPH_DIM_BOUND as int))
            by (nonlinear_arith)
            requires
                0 <= line_idx <= 0x100_0000,
                0 <= m.cell_height <= GLYPH_DIM_BOUND,
        ;
    }
    let x: i64 = (cell_idx as i64) * (m.cell_width as i64);
    let y: i64 = (line_idx as i64) * (m.cell_height as i64);
    let cw: i64 = m.cell_width as i64;
    let ch: i64 = m.cell_height as i64;
    ops.push(DrawOp::ClearRect { x, y, width: cw, height: ch, color: bg });
    match underline {
        Underline::Off => {},
        Underline::Single => {
            ops.push(
                DrawOp::DrawLine { x1: x, x2: x + cw, y: y + m.dec_rows.descender_plus_one, color: fg },
            );
        },
        Underline::Double => {
            ops.push(
                DrawOp::DrawLine { x1: x, x2: x + cw, y: y + m.dec_rows.descender_row, color: fg },
            );
            ops.push(
                DrawOp::DrawLine { x1: x, x2: x + cw, y: y + m.dec_rows.descender_plus_two, color: fg },
            );
        },
    }
    if strikethrough {
        ops.push(DrawOp::DrawLine { x1: x, x2: x + cw, y: y + m.dec_rows.strike_row, color: fg });
    }
}

/// Truncation toward zero over mathematical integers.
pub open spec fn spec_trunc_int(num: int, den: int) -> int {
    if num >= 0 {
        num / den
    } else {
        -((-num) / den)
    }
}

/// The pixel x position of a glyph blit: the cell's left edge, shifted by
/// the scaled offset plus bearing for the glyph's first cell, and placed on
/// the pixel grid by truncation.  Continuation cells get no shift.
pub open spec fn spec_blit_x(m: RenderMetrics, cell_idx: int, g: CachedGlyph, glyph_idx: int) -> int {
    let cell_x = cell_idx * m.cell_width;
    if glyph_idx == 0 {
        let lnum = g.x_offset.num + g.bearing_x.num;
        let lden = g.x_offset.den;
        spec_trunc_int(cell_x * lden + lnum, lden as int)
    } else {
        cell_x
    }
}

/// The pixel y position of a glyph blit:
/// `cell_top + cell_height - (y_offset + bearing_y)`, placed on the pixel
/// grid by truncation.
pub open spec fn spec_blit_y(m: RenderMetrics, line_idx: int, g: CachedGlyph) -> int {
    let cell_y = line_idx * m.cell_height;
    let bnum = g.y_offset.num + g.bearing_y.num;
    let bden = g.y_offset.den;
    let tnum = m.cell_height * bden - bnum;
    spec_trunc_int(cell_y * bden + tnum, bden as int)
}

/// Builds the blit primitive for one covered cell of a glyph with a sprite.
pub fn glyph_blit_op(
    m: &RenderMetrics,
    line_idx: usize,
    cell_idx: usize,
    glyph_idx: u32,
    num_cells: u32,
    glyph: &CachedGlyph,
    glyph_color: Color,
) -> (r: DrawOp)
    requires
        m.wf(),
        glyph.wf(),
        glyph.sprite is Some,
        line_idx * m.cell_height <= m.pixel_height,
        cell_idx * m.cell_width <= m.pixel_width,
    ensures
        r == (DrawOp::DrawSprite {
            x: spec_blit_x(*m, cell_idx as int, *glyph, glyph_idx as int) as i64,
            y: spec_blit_y(*m, line_idx as int, *glyph) as i64,
            cell_col: cell_idx,
            cell_row: line_idx,
            sprite: glyph.sprite->0,
            slice_cell: glyph_idx,
            num_cells,
            op: if glyph.has_color {
                CompositeOp::Over
            } else {
                CompositeOp::MultiplyThenOver(glyph_color)
            },
        }),
{
    proof {
        assert(cell_idx <= 0x100_0000 && line_idx <= 0x100_0000) by (nonlinear_arith)
            requires
                cell_idx * m.cell_width <= m.pixel_width,
                line_idx * m.cell_height <= m.pixel_height,
                m.cell_width >= 1,
                m.cell_height >= 1,
                m.pixel_width <= 0x100_0000,
                m.pixel_height <= 0x100_0000,
                cell_idx >= 0,
                line_idx >= 0,
        ;
    }
    let cell_x: i64 = (cell_idx as i64) * (m.cell_width as i64);
    let cell_y: i64 = (line_idx as i64) * (m.cell_height as i64);
    proof {
        assert(cell_x == cell_idx * m.cell_width && cell_y == line_idx * m.cell_height);
    }
    let x: i64 = if glyph_idx == 0 {
        let left = glyph.x_offset.add_same_den(&glyph.bearing_x);
        proof {
            assert(cell_x * left.den + left.num * 1 <= 0x100_0000_i64 * 0x1_0000 + 0x4_0000_0000
                && cell_x * left.den + left.num * 1 >= -0x4_0000_0000) by (nonlinear_arith)
                requires
                    0 <= cell_x <= 0x100_0000,
                    0 < left.den <= 0x1_0000,
                    -0x4_0000_0000 <= left.num <= 0x4_0000_0000,
            ;
        }
        let shifted = Frac::from_int(cell_x).add(&left);
        shifted.trunc()
    } else {
        cell_x
    };
    let lift = glyph.y_offset.add_same_den(&glyph.bearing_y);
    proof {
        assert((m.cell_height as i64) * lift.den - lift.num <= 0x1_0000_i64 * 0x1_0000
            + 0x4_0000_0000 && (m.cell_height as i64) * lift.den - lift.num
            >= -0x4_0000_0000_i64) by (nonlinear_arith)
            requires
                1 <= m.cell_height <= 0x1_0000,
                0 < lift.den <= 0x1_0000,
                -0x4_0000_0000 <= lift.num <= 0x4_0000_0000,
        ;
    }
    let top = Frac { num: (m.cell_height as i64) * lift.den - lift.num, den: lift.den };
    proof {
        assert(cell_y * top.den + top.num * 1 <= 0x100_0000_i64 * 0x10_0000_0000
            + 0x80_0000_0000_0000 && cell_y * top.den + top.num * 1 >= -(0x100_0000_i64
            * 0x10_0000_0000 + 0x80_0000_0000_0000)) by (nonlinear_arith)
            requires
                0 <= cell_y <= 0x100_0000,
                0 < top.den <= 0x10_0000_0000,
                -0x80_0000_0000_0000 <= top.num <= 0x80_0000_0000_0000,
        ;
    }
    let y_frac = Frac::from_int(cell_y).add(&top);
    let y: i64 = y_frac.trunc();
    proof {
        assert(x == spec_blit_x(*m, cell_idx as int, *glyph, glyph_idx as int));
        assert(y == spec_blit_y(*m, line_idx as int, *glyph));
    }
    DrawOp::DrawSprite {
        x,
        y,
        cell_col: cell_idx,
        cell_row: line_idx,
        sprite: match glyph.sprite {
            Some(s) => s,
            None => Sprite { rect: crate::atlas::Rect { x: 0, y: 0, width: 0, height: 0 },
                generation: 0 },
        },
        slice_cell: glyph_idx,
        num_cells,
        op: if glyph.has_color {
            CompositeOp::Over
        } else {
            CompositeOp::MultiplyThenOver(glyph_color)
        },
    }
}

/// The background clear emitted for a cell to the right of the last glyph:
/// such cells hold no text but still honor cursor and selection overrides
/// over the palette's default colors.
pub open spec fn spec_trailing_clear(
    m: RenderMetrics,
    line_idx: int,
    cell_idx: int,
    cursor: CursorPosition,
    selection_start: int,
    selection_end: int,
    palette: ColorPalette,
) -> DrawOp {
    let fg0 = Color {
        red: palette.foreground.red,
        green: palette.foreground.green,
        blue: palette.foreground.blue,
        alpha: 0xff,
    };
    let bg0 = Color {
        red: palette.background.red,
        green: palette.background.green,
        blue: palette.background.blue,
        alpha: 0xff,
    };
    let bg = spec_cell_fg_bg(
        selection_start <= cell_idx < selection_end,
        line_idx == cursor.y && cursor.x == cell_idx,
        fg0,
        bg0,
        palette,
    ).1;
    DrawOp::ClearRect {
        x: (cell_idx * m.cell_width) as i64,
        y: (line_idx * m.cell_height) as i64,
        width: m.cell_width as i64,
        height: m.cell_height as i64,
        color: bg,
    }
}

/// The clear of the pixel margin right of the last physical column.
pub open spec fn spec_right_margin_clear(
    m: RenderMetrics,
    line_idx: int,
    num_cols: int,
    palette: ColorPalette,
) -> DrawOp {
    DrawOp::ClearRect {
        x: (num_cols * m.cell_width) as i64,
        y: (line_idx * m.cell_height) as i64,
        width: (m.pixel_width - num_cols * m.cell_width) as i64,
        height: m.cell_height as i64,
        color: Color {
            red: palette.background.red,
            green: palette.background.green,
            blue: palette.background.blue,
            alpha: 0xff,
        },
    }
}

/// Renders one dirty line: clears and decorates every cell covered by a
/// shaped glyph, blits the cached sprites, clears the remaining cells to
/// the right, and clears the pixel margin beyond the last column.
///
/// `clusters` is the line's clustering and `shaped` the shaping results
/// aligned with it; a cluster without shaping data, or a glyph whose
/// geometry is out of range or whose rasterization is missing, is skipped
/// (the degraded path for a failed shape or rasterization).  Atlas
/// exhaustion aborts the line and is handed to the caller for recovery.
///
/// On success the result is the index of the rightmost covered cell; every
/// column to its right is cleared with the cursor/selection-resolved
/// background, and the final op is the right-margin clear.  All emitted ops
/// stay in this line's pixel band.
/// Shaped glyph geometry the renderer accepts; anything else is treated as
/// a failed shape for that glyph and skipped.
pub open spec fn spec_accepted_metrics(g: ShapedGlyphMetrics) -> bool {
    &&& 1 <= g.num_cells <= 0xFFFF
    &&& g.x_advance <= 0xFFFF
    &&& -0x8000 <= g.x_offset <= 0x8000
    &&& -0x8000 <= g.y_offset <= 0x8000
}

/// Rasterization output the renderer accepts; anything else is treated as
/// a failed rasterization and the glyph is skipped.
pub open spec fn spec_accepted_raster(r: RasterizedGlyph) -> bool {
    &&& r.width <= 0xFFFF
    &&& r.height <= 0xFFFF
    &&& -0x8000 <= r.bearing_x <= 0x8000
    &&& -0x8000 <= r.bearing_y <= 0x8000
}

/// A glyph can be drawn when it is already cached or an acceptable
/// rasterization of it is at hand.
pub open spec fn spec_glyph_available(
    cache: GlyphCache,
    rasters: RasterSource,
    key: GlyphKey,
) -> bool {
    cache.contains_key(key) || (rasters.contains_key(key) && spec_accepted_raster(
        rasters.spec_get(key),
    ))
}

/// The key under which one shaped glyph of a cluster is cached.
pub open spec fn spec_glyph_key(sh: ClusterShaping, g: int) -> GlyphKey {
    GlyphKey {
        font_idx: sh.glyphs@[g].font_idx,
        glyph_pos: sh.glyphs@[g].glyph_pos,
        style: sh.style,
    }
}

/// The minimum atlas side the resampled bitmap of one glyph demands: the
/// larger dimension of the bitmap after the fit-scale is applied.
pub open spec fn spec_required_side(
    info: ShapedGlyphMetrics,
    raster: RasterizedGlyph,
    cell_width: int,
    cell_height: int,
) -> int {
    let scale = spec_fit_scale(
        info.x_advance as int,
        info.num_cells as int,
        cell_width,
        raster.height as int,
        cell_height,
    );
    vstd::math::max(
        spec_scaled_dim(raster.width as int, scale),
        spec_scaled_dim(raster.height as int, scale),
    )
}

/// A glyph the renderer must allocate: cluster `k` has shaped glyph `g`
/// with acceptable geometry and an acceptable, nonempty rasterization at
/// hand.  Only such a glyph can exhaust the atlas.
pub open spec fn spec_unfittable_candidate(
    clusters: Seq<CellCluster>,
    shaped: Seq<ClusterShaping>,
    rasters: RasterSource,
    k: int,
    g: int,
) -> bool {
    &&& 0 <= k < clusters.len() && k < shaped.len() && 0 <= g < shaped[k].glyphs@.len()
    &&& spec_accepted_metrics(shaped[k].glyphs@[g].metrics)
    &&& clusters[k].first_cell_idx <= 0x100_0000
    &&& shaped[k].glyphs@[g].cluster_offset <= 0x100_0000
    &&& rasters.contains_key(spec_glyph_key(shaped[k], g))
    &&& spec_accepted_raster(rasters.spec_get(spec_glyph_key(shaped[k], g)))
    &&& rasters.spec_get(spec_glyph_key(shaped[k], g)).width > 0
    &&& rasters.spec_get(spec_glyph_key(shaped[k], g)).height > 0
}

/// The witness behind an exhaustion failure: a drawable glyph that is not
/// memoized, whose resampled bitmap could not be placed, and whose demand
/// is exactly the signal's size.
pub open spec fn spec_exhaustion_witness(
    e: OutOfTextureSpace,
    clusters: Seq<CellCluster>,
    shaped: Seq<ClusterShaping>,
    cache: GlyphCache,
    rasters: RasterSource,
    cell_width: int,
    cell_height: int,
    k: int,
    g: int,
) -> bool {
    &&& spec_unfittable_candidate(clusters, shaped, rasters, k, g)
    &&& !cache.contains_key(spec_glyph_key(shaped[k], g))
    &&& e.size == spec_required_side(
        shaped[k].glyphs@[g].metrics,
        rasters.spec_get(spec_glyph_key(shaped[k], g)),
        cell_width,
        cell_height,
    )
}

/// An exhaustion signal is honest for a line when some drawable,
/// unmemoized glyph of the line demanded exactly the signalled size.
pub open spec fn spec_line_exhausted(
    e: OutOfTextureSpace,
    clusters: Seq<CellCluster>,
    shaped: Seq<ClusterShaping>,
    cache: GlyphCache,
    rasters: RasterSource,
    cell_width: int,
    cell_height: int,
) -> bool {
    exists|kk: int, gg: int|
        spec_exhaustion_witness(e, clusters, shaped, cache, rasters, cell_width, cell_height, kk, gg)
}

/// Whether the glyph stored under `key` draws a bitmap: a memoized glyph
/// draws iff it holds a sprite, an unmemoized one iff its rasterization is
/// nonempty (a zero-size bitmap is whitespace).
pub open spec fn spec_draws_bitmap(
    cache: GlyphCache,
    rasters: RasterSource,
    key: GlyphKey,
) -> bool {
    if cache.contains_key(key) {
        cache.spec_get(key).sprite is Some
    } else {
        rasters.spec_get(key).width > 0 && rasters.spec_get(key).height > 0
    }
}

/// Every drawable, non-whitespace glyph is blitted: if cluster `k` has a
/// shaped glyph `g` with acceptable geometry, its base cell lies inside
/// the physical columns, the glyph is cached or rasterizable, and it draws
/// a bitmap, then the ops contain a sprite blit for that base cell with
/// the glyph's cell span.
pub open spec fn base_cell_blit_present(
    ops: Seq<DrawOp>,
    line_idx: int,
    num_cols: int,
    clusters: Seq<CellCluster>,
    shaped: Seq<ClusterShaping>,
    cache: GlyphCache,
    rasters: RasterSource,
    k: int,
    g: int,
) -> bool {
    (0 <= k < clusters.len() && k < shaped.len() && 0 <= g < shaped[k].glyphs@.len()
        && spec_accepted_metrics(shaped[k].glyphs@[g].metrics) && clusters[k].first_cell_idx
        <= 0x100_0000 && shaped[k].glyphs@[g].cluster_offset <= 0x100_0000
        && clusters[k].first_cell_idx + shaped[k].glyphs@[g].cluster_offset < num_cols
        && spec_glyph_available(cache, rasters, spec_glyph_key(shaped[k], g))
        && spec_draws_bitmap(cache, rasters, spec_glyph_key(shaped[k], g))) ==> exists|i: int|
        0 <= i < ops.len() && ((#[trigger] ops[i]) matches DrawOp::DrawSprite {
            cell_col,
            cell_row,
            slice_cell,
            num_cells,
            ..
        } && cell_col == clusters[k].first_cell_idx + shaped[k].glyphs@[g].cluster_offset
            && cell_row == line_idx && slice_cell == 0 && num_cells
            == shaped[k].glyphs@[g].metrics.num_cells)
}

/// The background clear a covered cell receives: the cell's rectangle in
/// the cluster's resolved background, after cursor and selection overrides.
pub open spec fn spec_covered_cell_clear(
    m: RenderMetrics,
    line_idx: int,
    cell_idx: int,
    cursor: CursorPosition,
    selection_start: int,
    selection_end: int,
    palette: ColorPalette,
    attrs: crate::line::CellAttributes,
    style_foreground: Option<RgbColor>,
) -> DrawOp {
    let colors = spec_cluster_colors(palette, attrs, style_foreground);
    let bg = spec_cell_fg_bg(
        selection_start <= cell_idx < selection_end,
        line_idx == cursor.y && cursor.x == cell_idx,
        colors.0,
        colors.1,
        palette,
    ).1;
    DrawOp::ClearRect {
        x: (cell_idx * m.cell_width) as i64,
        y: (line_idx * m.cell_height) as i64,
        width: m.cell_width as i64,
        height: m.cell_height as i64,
        color: bg,
    }
}

/// Every drawable glyph leaves its mark: if cluster `k` has a shaped glyph
/// `g` with acceptable geometry, its base cell lies inside the physical
/// columns, and the glyph is cached or rasterizable, then the emitted ops
/// contain the background clear of that base cell in the cluster's colors.
pub open spec fn base_cell_clear_present(
    ops: Seq<DrawOp>,
    m: RenderMetrics,
    line_idx: int,
    num_cols: int,
    clusters: Seq<CellCluster>,
    shaped: Seq<ClusterShaping>,
    cache: GlyphCache,
    rasters: RasterSource,
    cursor: CursorPosition,
    selection_start: int,
    selection_end: int,
    palette: ColorPalette,
    k: int,
    g: int,
) -> bool {
    (0 <= k < clusters.len() && k < shaped.len() && 0 <= g < shaped[k].glyphs@.len()
        && spec_accepted_metrics(shaped[k].glyphs@[g].metrics) && clusters[k].first_cell_idx
        <= 0x100_0000 && shaped[k].glyphs@[g].cluster_offset <= 0x100_0000
        && clusters[k].first_cell_idx + shaped[k].glyphs@[g].cluster_offset < num_cols
        && spec_glyph_available(cache, rasters, spec_glyph_key(shaped[k], g))) ==> exists|i: int|
        0 <= i < ops.len() && (#[trigger] ops[i]) == spec_covered_cell_clear(
            m,
            line_idx,
            clusters[k].first_cell_idx + shaped[k].glyphs@[g].cluster_offset,
            cursor,
            selection_start,
            selection_end,
            palette,
            clusters[k].attrs,
            shaped[k].style_foreground,
        )
}

/// An op list that grew by appending keeps every base-cell clear it held.
proof fn lemma_base_clear_stable(
    pre: Seq<DrawOp>,
    post: Seq<DrawOp>,
    m: RenderMetrics,
    line_idx: int,
    num_cols: int,
    clusters: Seq<CellCluster>,
    shaped: Seq<ClusterShaping>,
    cache: GlyphCache,
    rasters: RasterSource,
    cursor: CursorPosition,
    selection_start: int,
    selection_end: int,
    palette: ColorPalette,
    k: int,
    g: int,
)
    requires
        base_cell_clear_present(
            pre, m, line_idx, num_cols, clusters, shaped, cache, rasters, cursor,
            selection_start, selection_end, palette, k, g,
        ),
        pre.len() <= post.len(),
        forall|i: int| 0 <= i < pre.len() ==> #[trigger] post[i] == pre[i],
    ensures
        base_cell_clear_present(
            post, m, line_idx, num_cols, clusters, shaped, cache, rasters, cursor,
            selection_start, selection_end, palette, k, g,
        ),
{
    if 0 <= k < clusters.len() && k < shaped.len() && 0 <= g < shaped[k].glyphs@.len()
        && spec_accepted_metrics(shaped[k].glyphs@[g].metrics) && clusters[k].first_cell_idx
        <= 0x100_0000 && shaped[k].glyphs@[g].cluster_offset <= 0x100_0000
        && clusters[k].first_cell_idx + shaped[k].glyphs@[g].cluster_offset < num_cols
        && spec_glyph_available(cache, rasters, spec_glyph_key(shaped[k], g)) {
        let v = spec_covered_cell_clear(
            m,
            line_idx,
            clusters[k].first_cell_idx + shaped[k].glyphs@[g].cluster_offset,
            cursor,
            selection_start,
            selection_end,
            palette,
            clusters[k].attrs,
            shaped[k].style_foreground,
        );
        let w = choose|i: int| 0 <= i < pre.len() && pre[i] == v;
        assert(post[w] == pre[w]);
    }
}

/// An op list that grew by appending keeps every blit it held.
proof fn lemma_blit_present_stable(
    pre: Seq<DrawOp>,
    post: Seq<DrawOp>,
    line_idx: int,
    num_cols: int,
    clusters: Seq<CellCluster>,
    shaped: Seq<ClusterShaping>,
    cache: GlyphCache,
    rasters: RasterSource,
    k: int,
    g: int,
)
    requires
        base_cell_blit_present(pre, line_idx, num_cols, clusters, shaped, cache, rasters, k, g),
        pre.len() <= post.len(),
        forall|i: int| 0 <= i < pre.len() ==> #[trigger] post[i] == pre[i],
    ensures
        base_cell_blit_present(post, line_idx, num_cols, clusters, shaped, cache, rasters, k, g),
{
    if 0 <= k < clusters.len() && k < shaped.len() && 0 <= g < shaped[k].glyphs@.len()
        && spec_accepted_metrics(shaped[k].glyphs@[g].metrics) && clusters[k].first_cell_idx
        <= 0x100_0000 && shaped[k].glyphs@[g].cluster_offset <= 0x100_0000
        && clusters[k].first_cell_idx + shaped[k].glyphs@[g].cluster_offset < num_cols
        && spec_glyph_available(cache, rasters, spec_glyph_key(shaped[k], g))
        && spec_draws_bitmap(cache, rasters, spec_glyph_key(shaped[k], g)) {
        let w = choose|i: int|
            0 <= i < pre.len() && ((#[trigger] pre[i]) matches DrawOp::DrawSprite {
                cell_col,
                cell_row,
                slice_cell,
                num_cells,
                ..
            } && cell_col == clusters[k].first_cell_idx + shaped[k].glyphs@[g].cluster_offset
                && cell_row == line_idx && slice_cell == 0 && num_cells
                == shaped[k].glyphs@[g].metrics.num_cells);
        assert(post[w] == pre[w]);
    }
}

/// The draw primitives and rightmost covered cell of one rendered line.
pub struct LineRender {
    pub ops: Vec<DrawOp>,
    pub last_cell_idx: usize,
}

/// Renders one dirty line: clears and decorates every cell covered by a
/// shaped glyph, blits the cached sprites, clears the remaining cells to
/// the right, and clears the pixel margin beyond the last column.
///
/// `clusters` is the line's clustering and `shaped` the shaping results
/// aligned with it; a cluster without shaping data, or a glyph whose
/// geometry is out of range or whose rasterization is missing, is skipped
/// (the degraded path for a failed shape or rasterization).  Atlas
/// exhaustion aborts the line and is handed to the caller for recovery; the
/// recovery pass re-renders every line, so the aborted line's partial
/// primitives are not reported.
///
/// On success `last_cell_idx` is the rightmost covered cell; every column
/// to its right is cleared with the cursor/selection-resolved background,
/// and the final op is the right-margin clear.  All emitted ops stay in
/// this line's pixel band.
#[verifier::rlimit(100)]
pub fn render_screen_line(
    m: &RenderMetrics,
    line_idx: usize,
    num_cols: usize,
    clusters: &Vec<CellCluster>,
    shaped: &Vec<ClusterShaping>,
    selection_start: usize,
    selection_end: usize,
    cursor: &CursorPosition,
    current_highlight: Option<u64>,
    palette: &ColorPalette,
    cache: &mut GlyphCache,
    atlas: &mut TextureAtlas,
    rasters: &RasterSource,
) -> (r: Result<LineRender, OutOfTextureSpace>)
    requires
        m.wf(),
        palette.wf(),
        rasters.keys_unique(),
        old(cache).wf_for(old(atlas).spec_generation()),
        old(atlas).wf(),
        line_idx * m.cell_height + m.cell_height <= m.pixel_height,
        num_cols * m.cell_width <= m.pixel_width,
        num_cols <= 0x100_0000,
    ensures
        final(cache).wf_for(final(atlas).spec_generation()),
        final(atlas).wf(),
        final(atlas).spec_generation() == old(atlas).spec_generation(),
        final(atlas).spec_size() == old(atlas).spec_size(),
        match r {
            Ok(out) => {
                &&& ops_confined(out.ops@, 0, line_idx as int, *m)
                &&& (forall|c: int|
                    out.last_cell_idx < c < num_cols ==> exists|i: int|
                        0 <= i < out.ops@.len() && (#[trigger] out.ops@[i]) == (#[trigger]
                        spec_trailing_clear(
                            *m,
                            line_idx as int,
                            c,
                            *cursor,
                            selection_start as int,
                            selection_end as int,
                            *palette,
                        )))
                &&& out.ops@.len() > 0
                &&& out.ops@.last() == spec_right_margin_clear(
                    *m,
                    line_idx as int,
                    num_cols as int,
                    *palette,
                )
                &&& (forall|kk: int, gg: int|
                    base_cell_clear_present(
                        out.ops@,
                        *m,
                        line_idx as int,
                        num_cols as int,
                        clusters@,
                        shaped@,
                        *old(cache),
                        *rasters,
                        *cursor,
                        selection_start as int,
                        selection_end as int,
                        *palette,
                        kk,
                        gg,
                    ))
                &&& (forall|kk: int, gg: int|
                    base_cell_blit_present(
                        out.ops@,
                        line_idx as int,
                        num_cols as int,
                        clusters@,
                        shaped@,
                        *old(cache),
                        *rasters,
                        kk,
                        gg,
                    ))
                // a glyph wider than the remaining line is truncated: apart
                // from the final right-margin clear, nothing is painted at
                // or right of column num_cols
                &&& (forall|i: int|
                    0 <= i < out.ops@.len() - 1 ==> op_within_columns(
                        #[trigger] out.ops@[i],
                        num_cols as int,
                        *m,
                    ))
                // decoration lines appear only where an attribute (or the
                // hovered-hyperlink rule) asks, in the cell's final
                // foreground color
                &&& ops_decorations_justified(
                    out.ops@,
                    *m,
                    line_idx as int,
                    num_cols as int,
                    clusters@,
                    shaped@,
                    *cursor,
                    selection_start as int,
                    selection_end as int,
                    *palette,
                    current_highlight,
                )
            },
            Err(e) => spec_line_exhausted(
                e,
                clusters@,
                shaped@,
                *old(cache),
                *rasters,
                m.cell_width as int,
                m.cell_height as int,
            ),
        },
        forall|key: GlyphKey|
            #![trigger final(cache).contains_key(key)]
            old(cache).contains_key(key) ==> final(cache).contains_key(key),
        forall|key: GlyphKey|
            #![trigger final(cache).contains_key(key)]
            final(cache).contains_key(key) ==> old(cache).contains_key(key)
                || rasters.contains_key(key),
{
    proof {
        assert(line_idx <= 0x100_0000) by (nonlinear_arith)
            requires
                line_idx * m.cell_height + m.cell_height <= m.pixel_height,
                m.cell_height >= 1,
                m.pixel_height <= 0x100_0000,
                line_idx >= 0,
        ;
    }
    let mut ops: Vec<DrawOp> = Vec::new();
    let mut last_cell_idx: usize = 0;
    let mut k: usize = 0;
    while k < clusters.len()
        invariant
            m.wf(),
            palette.wf(),
            rasters.keys_unique(),
            cache.wf_for(atlas.spec_generation()),
            atlas.wf(),
            atlas.spec_generation() == old(atlas).spec_generation(),
            atlas.spec_size() == old(atlas).spec_size(),
            line_idx * m.cell_height + m.cell_height <= m.pixel_height,
            line_idx <= 0x100_0000,
            num_cols * m.cell_width <= m.pixel_width,
            num_cols <= 0x100_0000,
            last_cell_idx < num_cols || last_cell_idx == 0,
            ops_confined(ops@, 0, line_idx as int, *m),
            forall|i: int|
                0 <= i < ops@.len() ==> op_within_columns(#[trigger] ops@[i], num_cols as int, *m),
            ops_decorations_justified(
                ops@,
                *m,
                line_idx as int,
                num_cols as int,
                clusters@,
                shaped@,
                *cursor,
                selection_start as int,
                selection_end as int,
                *palette,
                current_highlight,
            ),
            forall|key2: GlyphKey|
                #![trigger cache.contains_key(key2)]
                old(cache).contains_key(key2) ==> cache.contains_key(key2),
            forall|key2: GlyphKey|
                #![trigger cache.contains_key(key2)]
                cache.contains_key(key2) ==> old(cache).contains_key(key2)
                    || rasters.contains_key(key2),
            forall|key2: GlyphKey|
                #![trigger cache.spec_get(key2)]
                old(cache).contains_key(key2) ==> cache.spec_get(key2)
                    == old(cache).spec_get(key2),
            forall|key2: GlyphKey|
                #![trigger cache.spec_get(key2)]
                cache.contains_key(key2) && !old(cache).contains_key(key2)
                    ==> rasters.contains_key(key2) && (cache.spec_get(key2).sprite is Some <==> (
                rasters.spec_get(key2).width > 0 && rasters.spec_get(key2).height > 0)),
            forall|kk: int, gg: int|
                kk < k ==> base_cell_blit_present(
                    ops@,
                    line_idx as int,
                    num_cols as int,
                    clusters@,
                    shaped@,
                    *old(cache),
                    *rasters,
                    kk,
                    gg,
                ),
            forall|kk: int, gg: int|
                kk < k ==> base_cell_clear_present(
                    ops@,
                    *m,
                    line_idx as int,
                    num_cols as int,
                    clusters@,
                    shaped@,
                    *old(cache),
                    *rasters,
                    *cursor,
                    selection_start as int,
                    selection_end as int,
                    *palette,
                    kk,
                    gg,
                ),
        decreases clusters.len() - k,
    {
        if k < shaped.len() {
            let cluster = &clusters[k];
            let sh = &shaped[k];
            let highlighted = match (cluster.attrs.hyperlink, current_highlight) {
                (Some(a), Some(b)) => a == b,
                _ => false,
            };
            let (glyph_color, bg_color) = cluster_colors(palette, &cluster.attrs, sh.style_foreground);
            let underline = if highlighted && matches!(cluster.attrs.underline, Underline::Off) {
                Underline::Single
            } else {
                cluster.attrs.underline
            };
            let mut g: usize = 0;
            while g < sh.glyphs.len()
                invariant
                    m.wf(),
                    palette.wf(),
                    rasters.keys_unique(),
                    cache.wf_for(atlas.spec_generation()),
                    atlas.wf(),
                    atlas.spec_generation() == old(atlas).spec_generation(),
                    atlas.spec_size() == old(atlas).spec_size(),
                    line_idx * m.cell_height + m.cell_height <= m.pixel_height,
                    line_idx <= 0x100_0000,
                    num_cols * m.cell_width <= m.pixel_width,
                    num_cols <= 0x100_0000,
                    last_cell_idx < num_cols || last_cell_idx == 0,
                    ops_confined(ops@, 0, line_idx as int, *m),
                    forall|i: int|
                        0 <= i < ops@.len() ==> op_within_columns(
                            #[trigger] ops@[i],
                            num_cols as int,
                            *m,
                        ),
                    ops_decorations_justified(
                        ops@,
                        *m,
                        line_idx as int,
                        num_cols as int,
                        clusters@,
                        shaped@,
                        *cursor,
                        selection_start as int,
                        selection_end as int,
                        *palette,
                        current_highlight,
                    ),
                    k < clusters@.len(),
                    k < shaped@.len(),
                    *cluster == clusters@[k as int],
                    *sh == shaped@[k as int],
                    (glyph_color, bg_color) == spec_cluster_colors(
                        *palette,
                        cluster.attrs,
                        sh.style_foreground,
                    ),
                    underline == (if (match (cluster.attrs.hyperlink, current_highlight) {
                        (Some(a), Some(b)) => a == b,
                        _ => false,
                    }) && cluster.attrs.underline is Off {
                        Underline::Single
                    } else {
                        cluster.attrs.underline
                    }),
                    forall|key2: GlyphKey|
                        #![trigger cache.contains_key(key2)]
                        old(cache).contains_key(key2) ==> cache.contains_key(key2),
                    forall|key2: GlyphKey|
                        #![trigger cache.contains_key(key2)]
                        cache.contains_key(key2) ==> old(cache).contains_key(key2)
                            || rasters.contains_key(key2),
                    forall|key2: GlyphKey|
                        #![trigger cache.spec_get(key2)]
                        old(cache).contains_key(key2) ==> cache.spec_get(key2)
                            == old(cache).spec_get(key2),
                    forall|key2: GlyphKey|
                        #![trigger cache.spec_get(key2)]
                        cache.contains_key(key2) && !old(cache).contains_key(key2)
                            ==> rasters.contains_key(key2) && (cache.spec_get(
                            key2,
                        ).sprite is Some <==> (rasters.spec_get(key2).width > 0
                            && rasters.spec_get(key2).height > 0)),
                    forall|kk: int, gg: int|
                        kk < k ==> base_cell_blit_present(
                            ops@,
                            line_idx as int,
                            num_cols as int,
                            clusters@,
                            shaped@,
                            *old(cache),
                            *rasters,
                            kk,
                            gg,
                        ),
                    forall|gg: int|
                        gg < g ==> base_cell_blit_present(
                            ops@,
                            line_idx as int,
                            num_cols as int,
                            clusters@,
                            shaped@,
                            *old(cache),
                            *rasters,
                            k as int,
                            gg,
                        ),
                    forall|kk: int, gg: int|
                        kk < k ==> base_cell_clear_present(
                            ops@,
                            *m,
                            line_idx as int,
                            num_cols as int,
                            clusters@,
                            shaped@,
                            *old(cache),
                            *rasters,
                            *cursor,
                            selection_start as int,
                            selection_end as int,
                            *palette,
                            kk,
                            gg,
                        ),
                    forall|gg: int|
                        gg < g ==> base_cell_clear_present(
                            ops@,
                            *m,
                            line_idx as int,
                            num_cols as int,
                            clusters@,
                            shaped@,
                            *old(cache),
                            *rasters,
                            *cursor,
                            selection_start as int,
                            selection_end as int,
                            *palette,
                            k as int,
                            gg,
                        ),
                decreases sh.glyphs.len() - g,
            {
                let info = sh.glyphs[g];
                let metrics_ok = 1 <= info.metrics.num_cells && info.metrics.num_cells <= 0xFFFF
                    && info.metrics.x_advance <= 0xFFFF && -0x8000 <= info.metrics.x_offset
                    && info.metrics.x_offset <= 0x8000 && -0x8000 <= info.metrics.y_offset
                    && info.metrics.y_offset <= 0x8000 && cluster.first_cell_idx <= 0x100_0000
                    && info.cluster_offset <= 0x100_0000;
                if metrics_ok {
                    let key = GlyphKey {
                        font_idx: info.font_idx,
                        glyph_pos: info.glyph_pos,
                        style: sh.style,
                    };
                    let ghost cache_pre = *cache;
                    let mut exhausted: Option<OutOfTextureSpace> = None;
                    let glyph_opt: Option<CachedGlyph> = match cache.lookup(&key) {
                        Some(hit) => Some(hit),
                        None => match rasters.lookup(&key) {
                            None => None,
                            Some(raster) => {
                                let raster_fits = raster.width <= 0xFFFF && raster.height <= 0xFFFF
                                    && -0x8000 <= raster.bearing_x && raster.bearing_x <= 0x8000
                                    && -0x8000 <= raster.bearing_y && raster.bearing_y <= 0x8000;
                                if raster_fits {
                                    match cache.get_or_create(
                                        atlas,
                                        key,
                                        &info.metrics,
                                        &raster,
                                        m.cell_width,
                                        m.cell_height,
                                    ) {
                                        Ok((created, _)) => Some(created),
                                        Err(e) => {
                                            exhausted = Some(e);
                                            None
                                        },
                                    }
                                } else {
                                    None
                                }
                            },
                        },
                    };
                    if let Some(e) = exhausted {
                        proof {
                            assert(key == spec_glyph_key(shaped@[k as int], g as int));
                            assert(!old(cache).contains_key(key));
                            assert(spec_exhaustion_witness(
                                e,
                                clusters@,
                                shaped@,
                                *old(cache),
                                *rasters,
                                m.cell_width as int,
                                m.cell_height as int,
                                k as int,
                                g as int,
                            ));
                            assert(spec_line_exhausted(
                                e,
                                clusters@,
                                shaped@,
                                *old(cache),
                                *rasters,
                                m.cell_width as int,
                                m.cell_height as int,
                            ));
                        }
                        return Err(e);
                    }
                    proof {
                        // lookups leave the cache alone and creation only appends:
                        // every key the cache held at entry is still held, and
                        // every new key came from the rasterization source
                        assert forall|key2: GlyphKey|
                            old(cache).contains_key(key2) implies #[trigger] cache.contains_key(
                            key2,
                        ) by {
                            if cache.entries_seq().len() > cache_pre.entries_seq().len() {
                                crate::glyphcache::lemma_extension_keeps_keys(
                                    cache_pre,
                                    *cache,
                                    key2,
                                );
                            }
                        }
                        assert forall|key2: GlyphKey|
                            #[trigger] cache.contains_key(key2) implies old(cache).contains_key(
                            key2,
                        ) || rasters.contains_key(key2) by {
                            if cache.entries_seq().len() > cache_pre.entries_seq().len() {
                                crate::glyphcache::lemma_extension_key_source(
                                    cache_pre,
                                    *cache,
                                    key,
                                    key2,
                                );
                            }
                        }
                        assert forall|key2: GlyphKey|
                            old(cache).contains_key(key2) implies #[trigger] cache.spec_get(key2)
                            == old(cache).spec_get(key2) by {
                            if cache.entries_seq().len() > cache_pre.entries_seq().len() {
                                crate::glyphcache::lemma_extension_keeps_get(
                                    cache_pre,
                                    *cache,
                                    key2,
                                );
                            }
                        }
                        assert forall|key2: GlyphKey|
                            cache.contains_key(key2) && !old(cache).contains_key(key2) implies (
                        rasters.contains_key(key2) && ((#[trigger] cache.spec_get(
                            key2,
                        )).sprite is Some <==> (rasters.spec_get(key2).width > 0
                            && rasters.spec_get(key2).height > 0))) by {
                            if cache.entries_seq().len() > cache_pre.entries_seq().len() {
                                crate::glyphcache::lemma_extension_key_source(
                                    cache_pre,
                                    *cache,
                                    key,
                                    key2,
                                );
                                if cache_pre.contains_key(key2) {
                                    crate::glyphcache::lemma_extension_keeps_get(
                                        cache_pre,
                                        *cache,
                                        key2,
                                    );
                                }
                            }
                        }
                        if glyph_opt is None {
                            // the skipped glyph was neither cached nor rasterizable
                            assert(!cache_pre.contains_key(key));
                            assert(!old(cache).contains_key(key));
                            assert(!spec_glyph_available(*old(cache), *rasters, key));
                            assert(key == spec_glyph_key(shaped@[k as int], g as int));
                        }
                    }
                    if let Some(glyph) = glyph_opt {
                        proof {
                            assert(cache.contains_key(key) && glyph == cache.spec_get(key));
                            let w = choose|i: int|
                                0 <= i < cache.entries_seq().len() && cache.entries_seq()[i].0
                                    == key;
                            assert(cache.entries_seq()[w].1.wf());
                            assert(glyph.wf());
                        }
                        proof {
                            assert(glyph.sprite is Some <==> spec_draws_bitmap(
                                *old(cache),
                                *rasters,
                                key,
                            ));
                        }
                        let cell_base: u64 = (cluster.first_cell_idx as u64) + (
                        info.cluster_offset as u64);
                        let ghost mut base_clear_at: int = -1;
                        let ghost mut blit_at: int = -1;
                        let mut j: u32 = 0;
                        while j < info.metrics.num_cells
                            invariant
                                m.wf(),
                                palette.wf(),
                                glyph.wf(),
                                line_idx * m.cell_height + m.cell_height <= m.pixel_height,
                                line_idx <= 0x100_0000,
                                num_cols * m.cell_width <= m.pixel_width,
                                num_cols <= 0x100_0000,
                                cell_base <= 0x200_0000,
                                1 <= info.metrics.num_cells <= 0xFFFF,
                                j <= 0xFFFF,
                                last_cell_idx < num_cols || last_cell_idx == 0,
                                ops_confined(ops@, 0, line_idx as int, *m),
                                forall|i: int|
                                    0 <= i < ops@.len() ==> op_within_columns(
                                        #[trigger] ops@[i],
                                        num_cols as int,
                                        *m,
                                    ),
                                ops_decorations_justified(
                                    ops@,
                                    *m,
                                    line_idx as int,
                                    num_cols as int,
                                    clusters@,
                                    shaped@,
                                    *cursor,
                                    selection_start as int,
                                    selection_end as int,
                                    *palette,
                                    current_highlight,
                                ),
                                k < clusters@.len(),
                                k < shaped@.len(),
                                *cluster == clusters@[k as int],
                                *sh == shaped@[k as int],
                                (glyph_color, bg_color) == spec_cluster_colors(
                                    *palette,
                                    cluster.attrs,
                                    sh.style_foreground,
                                ),
                                cell_base == cluster.first_cell_idx + info.cluster_offset,
                                underline == (if (match (cluster.attrs.hyperlink,
                                    current_highlight) {
                                    (Some(a), Some(b)) => a == b,
                                    _ => false,
                                }) && cluster.attrs.underline is Off {
                                    Underline::Single
                                } else {
                                    cluster.attrs.underline
                                }),
                                forall|key2: GlyphKey|
                                    #![trigger cache.contains_key(key2)]
                                    old(cache).contains_key(key2) ==> cache.contains_key(key2),
                                forall|kk: int, gg: int|
                                    kk < k ==> base_cell_clear_present(
                                        ops@,
                                        *m,
                                        line_idx as int,
                                        num_cols as int,
                                        clusters@,
                                        shaped@,
                                        *old(cache),
                                        *rasters,
                                        *cursor,
                                        selection_start as int,
                                        selection_end as int,
                                        *palette,
                                        kk,
                                        gg,
                                    ),
                                forall|gg: int|
                                    gg < g ==> base_cell_clear_present(
                                        ops@,
                                        *m,
                                        line_idx as int,
                                        num_cols as int,
                                        clusters@,
                                        shaped@,
                                        *old(cache),
                                        *rasters,
                                        *cursor,
                                        selection_start as int,
                                        selection_end as int,
                                        *palette,
                                        k as int,
                                        gg,
                                    ),
                                forall|kk: int, gg: int|
                                    kk < k || (kk == k && gg < g) ==> base_cell_blit_present(
                                        ops@,
                                        line_idx as int,
                                        num_cols as int,
                                        clusters@,
                                        shaped@,
                                        *old(cache),
                                        *rasters,
                                        kk,
                                        gg,
                                    ),
                                j > 0 && cell_base < num_cols && glyph.sprite is Some ==> 0
                                    <= blit_at < ops@.len() && ((ops@[blit_at])
                                    matches DrawOp::DrawSprite {
                                    cell_col,
                                    cell_row,
                                    slice_cell,
                                    num_cells,
                                    ..
                                } && cell_col == cell_base && cell_row == line_idx && slice_cell
                                    == 0 && num_cells == info.metrics.num_cells),
                                j > 0 && cell_base < num_cols ==> 0 <= base_clear_at < ops@.len()
                                    && ops@[base_clear_at] == spec_covered_cell_clear(
                                    *m,
                                    line_idx as int,
                                    cell_base as int,
                                    *cursor,
                                    selection_start as int,
                                    selection_end as int,
                                    *palette,
                                    cluster.attrs,
                                    sh.style_foreground,
                                ),
                            ensures
                                cell_base < num_cols && glyph.sprite is Some ==> 0 <= blit_at
                                    < ops@.len() && ((ops@[blit_at]) matches DrawOp::DrawSprite {
                                    cell_col,
                                    cell_row,
                                    slice_cell,
                                    num_cells,
                                    ..
                                } && cell_col == cell_base && cell_row == line_idx && slice_cell
                                    == 0 && num_cells == info.metrics.num_cells),
                                forall|kk: int, gg: int|
                                    kk < k || (kk == k && gg < g) ==> base_cell_blit_present(
                                        ops@,
                                        line_idx as int,
                                        num_cols as int,
                                        clusters@,
                                        shaped@,
                                        *old(cache),
                                        *rasters,
                                        kk,
                                        gg,
                                    ),
                                cell_base < num_cols ==> 0 <= base_clear_at < ops@.len()
                                    && ops@[base_clear_at] == spec_covered_cell_clear(
                                    *m,
                                    line_idx as int,
                                    cell_base as int,
                                    *cursor,
                                    selection_start as int,
                                    selection_end as int,
                                    *palette,
                                    cluster.attrs,
                                    sh.style_foreground,
                                ),
                            decreases info.metrics.num_cells - j,
                        {
                            let c_wide: u64 = cell_base + (j as u64);
                            if c_wide >= num_cols as u64 {
                                break;
                            }
                            let c: usize = c_wide as usize;
                            last_cell_idx = c;
                            proof {
                                assert(c * m.cell_width <= num_cols * m.cell_width)
                                    by (nonlinear_arith)
                                    requires
                                        0 <= c < num_cols,
                                        m.cell_width >= 0,
                                ;
                            }
                            let (fg2, bg2) = compute_cell_fg_bg(
                                line_idx,
                                c,
                                cursor,
                                selection_start,
                                selection_end,
                                glyph_color,
                                bg_color,
                                palette,
                            );
                            let ghost pre_cell = ops@;
                            push_cell_ops(
                                m,
                                line_idx,
                                c,
                                fg2,
                                bg2,
                                underline,
                                cluster.attrs.strikethrough,
                                &mut ops,
                            );
                            proof {
                                assert(c * m.cell_width + m.cell_width <= num_cols
                                    * m.cell_width) by (nonlinear_arith)
                                    requires
                                        0 <= c < num_cols,
                                        m.cell_width >= 0,
                                ;
                                assert(0 <= c * m.cell_width && num_cols * m.cell_width
                                    <= 0x1_0000_0000_0000 && 0 <= line_idx * m.cell_height
                                    && line_idx * m.cell_height + m.cell_height
                                    <= 0x1_0000_0000_0000) by (nonlinear_arith)
                                    requires
                                        0 <= c,
                                        0 <= num_cols <= 0x100_0000,
                                        0 <= line_idx <= 0x100_0000,
                                        1 <= m.cell_width <= 0x1_0000,
                                        1 <= m.cell_height <= 0x1_0000,
                                ;
                                let block = spec_cell_ops(
                                    *m,
                                    line_idx as int,
                                    c as int,
                                    fg2,
                                    bg2,
                                    underline,
                                    cluster.attrs.strikethrough,
                                );
                                lemma_cell_ops_shape(
                                    *m,
                                    line_idx as int,
                                    c as int,
                                    fg2,
                                    bg2,
                                    underline,
                                    cluster.attrs.strikethrough,
                                );
                                assert forall|t: int|
                                    0 <= t < ops@.len() implies op_in_row_band(
                                    #[trigger] ops@[t],
                                    line_idx as int,
                                    *m,
                                ) by {
                                    if t < pre_cell.len() {
                                        assert(ops@[t] == pre_cell[t]);
                                    }
                                }
                                assert forall|t: int|
                                    0 <= t < ops@.len() implies op_within_columns(
                                    #[trigger] ops@[t],
                                    num_cols as int,
                                    *m,
                                ) by {
                                    if t < pre_cell.len() {
                                        assert(ops@[t] == pre_cell[t]);
                                    } else {
                                        assert(ops@[t] == block[t - pre_cell.len()]);
                                    }
                                }
                                assert forall|t: int|
                                    0 <= t < ops@.len() implies match #[trigger] ops@[t] {
                                    DrawOp::DrawLine { x1, x2, y, color } => spec_decoration_justified(
                                        x1 as int,
                                        x2 as int,
                                        y as int,
                                        color,
                                        *m,
                                        line_idx as int,
                                        num_cols as int,
                                        clusters@,
                                        shaped@,
                                        *cursor,
                                        selection_start as int,
                                        selection_end as int,
                                        *palette,
                                        current_highlight,
                                    ),
                                    DrawOp::DrawSprite { cell_col, op: cop, .. } => spec_blit_tint_justified(
                                        cop,
                                        cell_col as int,
                                        *m,
                                        line_idx as int,
                                        clusters@,
                                        shaped@,
                                        *cursor,
                                        selection_start as int,
                                        selection_end as int,
                                        *palette,
                                    ),
                                    _ => true,
                                } by {
                                    if t < pre_cell.len() {
                                        assert(ops@[t] == pre_cell[t]);
                                    } else {
                                        assert(ops@[t] == block[t - pre_cell.len()]);
                                        match ops@[t] {
                                            DrawOp::DrawLine { x1, x2, y, color } => {
                                                assert(spec_decoration_at(
                                                    x1 as int,
                                                    x2 as int,
                                                    y as int,
                                                    color,
                                                    *m,
                                        line_idx as int,
                                        num_cols as int,
                                        clusters@,
                                        shaped@,
                                        *cursor,
                                        selection_start as int,
                                        selection_end as int,
                                        *palette,
                                        current_highlight,
                                                    k as int,
                                                    c as int,
                                                ));
                                            },
                                            _ => {},
                                        }
                                    }
                                }
                                assert forall|kk: int, gg: int|
                                    kk < k || (kk == k && gg < g) implies base_cell_clear_present(
                                    ops@,
                                    *m,
                                        line_idx as int,
                                        num_cols as int,
                                        clusters@,
                                        shaped@,
                                        *old(cache),
                                        *rasters,
                                        *cursor,
                                        selection_start as int,
                                        selection_end as int,
                                        *palette,
                                    kk,
                                    gg,
                                ) by {
                                    lemma_base_clear_stable(
                                        pre_cell,
                                        ops@,
                                        *m,
                                        line_idx as int,
                                        num_cols as int,
                                        clusters@,
                                        shaped@,
                                        *old(cache),
                                        *rasters,
                                        *cursor,
                                        selection_start as int,
                                        selection_end as int,
                                        *palette,
                                        kk,
                                        gg,
                                    );
                                }
                                assert forall|kk: int, gg: int|
                                    kk < k || (kk == k && gg < g) implies base_cell_blit_present(
                                    ops@,
                                    line_idx as int,
                                    num_cols as int,
                                    clusters@,
                                    shaped@,
                                    *old(cache),
                                    *rasters,
                                    kk,
                                    gg,
                                ) by {
                                    lemma_blit_present_stable(
                                        pre_cell,
                                        ops@,
                                    line_idx as int,
                                    num_cols as int,
                                    clusters@,
                                    shaped@,
                                    *old(cache),
                                    *rasters,
                                        kk,
                                        gg,
                                    );
                                }
                                if blit_at >= 0 && blit_at < pre_cell.len() {
                                    assert(ops@[blit_at] == pre_cell[blit_at]);
                                }
                                if j == 0 {
                                    base_clear_at = pre_cell.len() as int;
                                    assert(ops@[base_clear_at] == spec_covered_cell_clear(
                                        *m,
                                        line_idx as int,
                                        cell_base as int,
                                        *cursor,
                                        selection_start as int,
                                        selection_end as int,
                                        *palette,
                                        cluster.attrs,
                                        sh.style_foreground,
                                    ));
                                } else {
                                    assert(ops@[base_clear_at] == pre_cell[base_clear_at]);
                                }
                            }
                            if matches!(glyph.sprite, Some(_)) {
                                proof {
                                    assert(line_idx * m.cell_height <= m.pixel_height);
                                }
                                let blit = glyph_blit_op(
                                    m,
                                    line_idx,
                                    c,
                                    j,
                                    info.metrics.num_cells,
                                    &glyph,
                                    fg2,
                                );
                                let ghost pre_blit = ops@;
                                ops.push(blit);
                                proof {
                                    assert forall|t: int|
                                        0 <= t < ops@.len() implies op_in_row_band(
                                        #[trigger] ops@[t],
                                        line_idx as int,
                                        *m,
                                    ) by {
                                        if t < pre_blit.len() {
                                            assert(ops@[t] == pre_blit[t]);
                                        } else {
                                            assert(ops@[t] == blit);
                                        }
                                    }
                                    assert forall|t: int|
                                        0 <= t < ops@.len() implies op_within_columns(
                                        #[trigger] ops@[t],
                                        num_cols as int,
                                        *m,
                                    ) by {
                                        if t < pre_blit.len() {
                                            assert(ops@[t] == pre_blit[t]);
                                        } else {
                                            assert(ops@[t] == blit);
                                        }
                                    }
                                    assert forall|t: int|
                                        0 <= t < ops@.len() implies match #[trigger] ops@[t] {
                                        DrawOp::DrawLine { x1, x2, y, color } => spec_decoration_justified(
                                            x1 as int,
                                            x2 as int,
                                            y as int,
                                            color,
                                            *m,
                                            line_idx as int,
                                            num_cols as int,
                                            clusters@,
                                            shaped@,
                                            *cursor,
                                            selection_start as int,
                                            selection_end as int,
                                            *palette,
                                            current_highlight,
                                        ),
                                        DrawOp::DrawSprite { cell_col, op: cop, .. } => spec_blit_tint_justified(
                                            cop,
                                            cell_col as int,
                                            *m,
                                            line_idx as int,
                                            clusters@,
                                            shaped@,
                                            *cursor,
                                            selection_start as int,
                                            selection_end as int,
                                            *palette,
                                        ),
                                        _ => true,
                                    } by {
                                        if t < pre_blit.len() {
                                            assert(ops@[t] == pre_blit[t]);
                                        } else {
                                            assert(ops@[t] == blit);
                                            match ops@[t] {
                                                DrawOp::DrawSprite { cell_col, op: cop, .. } => {
                                                    assert(spec_blit_tint_at(
                                                        cop,
                                                        cell_col as int,
                                                        *m,
                                                        line_idx as int,
                                                        clusters@,
                                                        shaped@,
                                                        *cursor,
                                                        selection_start as int,
                                                        selection_end as int,
                                                        *palette,
                                                        k as int,
                                                    ));
                                                },
                                                _ => {},
                                            }
                                        }
                                    }
                                    assert forall|kk: int, gg: int|
                                        kk < k || (kk == k && gg < g)
                                            implies base_cell_clear_present(
                                        ops@,
                                        *m,
                                        line_idx as int,
                                        num_cols as int,
                                        clusters@,
                                        shaped@,
                                        *old(cache),
                                        *rasters,
                                        *cursor,
                                        selection_start as int,
                                        selection_end as int,
                                        *palette,
                                        kk,
                                        gg,
                                    ) by {
                                        lemma_base_clear_stable(
                                            pre_blit,
                                            ops@,
                                            *m,
                                        line_idx as int,
                                        num_cols as int,
                                        clusters@,
                                        shaped@,
                                        *old(cache),
                                        *rasters,
                                        *cursor,
                                        selection_start as int,
                                        selection_end as int,
                                        *palette,
                                            kk,
                                            gg,
                                        );
                                    }
                                    assert(ops@[base_clear_at] == pre_blit[base_clear_at]);
                                    assert forall|kk: int, gg: int|
                                        kk < k || (kk == k && gg
                                            < g) implies base_cell_blit_present(
                                        ops@,
                                        line_idx as int,
                                        num_cols as int,
                                        clusters@,
                                        shaped@,
                                        *old(cache),
                                        *rasters,
                                        kk,
                                        gg,
                                    ) by {
                                        lemma_blit_present_stable(
                                            pre_blit,
                                            ops@,
                                        line_idx as int,
                                        num_cols as int,
                                        clusters@,
                                        shaped@,
                                        *old(cache),
                                        *rasters,
                                            kk,
                                            gg,
                                        );
                                    }
                                    if j == 0 {
                                        blit_at = pre_blit.len() as int;
                                        assert(ops@[blit_at] == blit);
                                    } else if blit_at >= 0 && blit_at < pre_blit.len() {
                                        assert(ops@[blit_at] == pre_blit[blit_at]);
                                    }
                                }
                            }
                            j = j + 1;
                        }
                        proof {
                            // the glyph's base cell, when inside the grid, got its
                            // blit (when it draws a bitmap) and its clear on the
                            // first pass of the cell loop
                            assert(base_cell_blit_present(
                                ops@,
                                line_idx as int,
                                num_cols as int,
                                clusters@,
                                shaped@,
                                *old(cache),
                                *rasters,
                                k as int,
                                g as int,
                            ));
                            assert(base_cell_clear_present(
                                ops@,
                                *m,
                                line_idx as int,
                                num_cols as int,
                                clusters@,
                                shaped@,
                                *old(cache),
                                *rasters,
                                *cursor,
                                selection_start as int,
                                selection_end as int,
                                *palette,
                                k as int,
                                g as int,
                            ));
                        }
                    }
                }
                g = g + 1;
            }
        }
        k = k + 1;
    }
    proof {
        assert forall|kk: int, gg: int|
            base_cell_blit_present(
                ops@,
                line_idx as int,
                num_cols as int,
                clusters@,
                shaped@,
                *old(cache),
                *rasters,
                kk,
                gg,
            ) by {
            if 0 <= kk < clusters@.len() {
            }
        }
        assert forall|kk: int, gg: int|
            base_cell_clear_present(
                ops@,
                *m,
                line_idx as int,
                num_cols as int,
                clusters@,
                shaped@,
                *old(cache),
                *rasters,
                *cursor,
                selection_start as int,
                selection_end as int,
                *palette,
                kk,
                gg,
            ) by {
            if 0 <= kk < clusters@.len() {
            }
        }
    }
    let ghost ops_after_clusters = ops@;
    // clear the remaining cells to the right of the last covered cell
    let fg0 = rgbcolor_to_window_color(palette.foreground);
    let bg0 = rgbcolor_to_window_color(palette.background);
    let mut c: usize = last_cell_idx + 1;
    while c < num_cols
        invariant
            m.wf(),
            palette.wf(),
            line_idx * m.cell_height + m.cell_height <= m.pixel_height,
            line_idx <= 0x100_0000,
            num_cols * m.cell_width <= m.pixel_width,
            num_cols <= 0x100_0000,
            last_cell_idx < c,
            ops_confined(ops@, 0, line_idx as int, *m),
            forall|i: int|
                0 <= i < ops@.len() ==> op_within_columns(#[trigger] ops@[i], num_cols as int, *m),
            ops_decorations_justified(
                ops@,
                *m,
                line_idx as int,
                num_cols as int,
                clusters@,
                shaped@,
                *cursor,
                selection_start as int,
                selection_end as int,
                *palette,
                current_highlight,
            ),
            fg0 == (Color {
                red: palette.foreground.red,
                green: palette.foreground.green,
                blue: palette.foreground.blue,
                alpha: 0xff,
            }),
            bg0 == (Color {
                red: palette.background.red,
                green: palette.background.green,
                blue: palette.background.blue,
                alpha: 0xff,
            }),
            forall|c2: int|
                last_cell_idx < c2 < c ==> exists|i: int|
                    0 <= i < ops@.len() && (#[trigger] ops@[i]) == (#[trigger]
                    spec_trailing_clear(
                        *m,
                        line_idx as int,
                        c2,
                        *cursor,
                        selection_start as int,
                        selection_end as int,
                        *palette,
                    )),
            forall|kk: int, gg: int|
                base_cell_clear_present(
                    ops@,
                    *m,
                    line_idx as int,
                    num_cols as int,
                    clusters@,
                    shaped@,
                    *old(cache),
                    *rasters,
                    *cursor,
                    selection_start as int,
                    selection_end as int,
                    *palette,
                    kk,
                    gg,
                ),
            forall|kk: int, gg: int|
                base_cell_blit_present(
                    ops@,
                    line_idx as int,
                    num_cols as int,
                    clusters@,
                    shaped@,
                    *old(cache),
                    *rasters,
                    kk,
                    gg,
                ),
        decreases num_cols - c,
    {
        let (_fg2, bg2) = compute_cell_fg_bg(
            line_idx,
            c,
            cursor,
            selection_start,
            selection_end,
            fg0,
            bg0,
            palette,
        );
        proof {
            assert(c * m.cell_width <= num_cols * m.cell_width) by (nonlinear_arith)
                requires
                    0 <= c < num_cols,
                    m.cell_width >= 0,
            ;
        }
        let x: i64 = (c as i64) * (m.cell_width as i64);
        let y: i64 = (line_idx as i64) * (m.cell_height as i64);
        let ghost pre_trail = ops@;
        let ghost witness = ops@.len() as int;
        ops.push(
            DrawOp::ClearRect {
                x,
                y,
                width: m.cell_width as i64,
                height: m.cell_height as i64,
                color: bg2,
            },
        );
        proof {
            assert(c * m.cell_width + m.cell_width <= num_cols * m.cell_width)
                by (nonlinear_arith)
                requires
                    0 <= c < num_cols,
                    m.cell_width >= 0,
            ;
            assert(0 <= c * m.cell_width && num_cols * m.cell_width <= 0x1_0000_0000_0000)
                by (nonlinear_arith)
                requires
                    0 <= c,
                    0 <= num_cols <= 0x100_0000,
                    1 <= m.cell_width <= 0x1_0000,
            ;
            assert(ops@[witness] == spec_trailing_clear(
                *m,
                line_idx as int,
                c as int,
                *cursor,
                selection_start as int,
                selection_end as int,
                *palette,
            ));
            assert forall|t: int|
                0 <= t < ops@.len() implies op_within_columns(
                #[trigger] ops@[t],
                num_cols as int,
                *m,
            ) by {
                if t < pre_trail.len() {
                    assert(ops@[t] == pre_trail[t]);
                } else {
                    assert(t == witness);
                }
            }
            assert forall|t: int|
                0 <= t < ops@.len() implies match #[trigger] ops@[t] {
                DrawOp::DrawLine { x1, x2, y, color } => spec_decoration_justified(
                    x1 as int,
                    x2 as int,
                    y as int,
                    color,
                    *m,
                    line_idx as int,
                    num_cols as int,
                    clusters@,
                    shaped@,
                    *cursor,
                    selection_start as int,
                    selection_end as int,
                    *palette,
                    current_highlight,
                ),
            DrawOp::DrawSprite { cell_col, op: cop, .. } => spec_blit_tint_justified(
                cop,
                cell_col as int,
                *m,
                line_idx as int,
                clusters@,
                shaped@,
                *cursor,
                selection_start as int,
                selection_end as int,
                *palette,
            ),
                _ => true,
            } by {
                if t < pre_trail.len() {
                    assert(ops@[t] == pre_trail[t]);
                }
            }
            assert forall|kk: int, gg: int|
                base_cell_blit_present(
                    ops@,
                    line_idx as int,
                    num_cols as int,
                    clusters@,
                    shaped@,
                    *old(cache),
                    *rasters,
                    kk,
                    gg,
                ) by {
                lemma_blit_present_stable(
                    pre_trail,
                    ops@,
                    line_idx as int,
                    num_cols as int,
                    clusters@,
                    shaped@,
                    *old(cache),
                    *rasters,
                    kk,
                    gg,
                );
            }
            assert forall|kk: int, gg: int|
                base_cell_clear_present(
                    ops@,
                    *m,
                    line_idx as int,
                    num_cols as int,
                    clusters@,
                    shaped@,
                    *old(cache),
                    *rasters,
                    *cursor,
                    selection_start as int,
                    selection_end as int,
                    *palette,
                    kk,
                    gg,
                ) by {
                lemma_base_clear_stable(
                    pre_trail,
                    ops@,
                    *m,
                    line_idx as int,
                    num_cols as int,
                    clusters@,
                    shaped@,
                    *old(cache),
                    *rasters,
                    *cursor,
                    selection_start as int,
                    selection_end as int,
                    *palette,
                    kk,
                    gg,
                );
            }
            assert forall|t: int|
                0 <= t < ops@.len() implies op_in_row_band(#[trigger] ops@[t], line_idx as int, *m) by {
                if t < pre_trail.len() {
                    assert(ops@[t] == pre_trail[t]);
                }
            }
            assert forall|c2: int|
                last_cell_idx < c2 < c + 1 implies exists|i: int|
                    0 <= i < ops@.len() && (#[trigger] ops@[i]) == (#[trigger] spec_trailing_clear(
                        *m,
                        line_idx as int,
                        c2,
                        *cursor,
                        selection_start as int,
                        selection_end as int,
                        *palette,
                    )) by {
                if c2 < c {
                    let w2 = choose|i: int|
                        0 <= i < pre_trail.len() && pre_trail[i] == spec_trailing_clear(
                            *m,
                            line_idx as int,
                            c2,
                            *cursor,
                            selection_start as int,
                            selection_end as int,
                            *palette,
                        );
                    assert(ops@[w2] == pre_trail[w2]);
                } else {
                    assert(ops@[witness] == spec_trailing_clear(
                        *m,
                        line_idx as int,
                        c2,
                        *cursor,
                        selection_start as int,
                        selection_end as int,
                        *palette,
                    ));
                }
            }
        }
        c = c + 1;
    }
    // clear the pixel margin to the right of the last physical column
    let margin_x: i64 = (num_cols as i64) * (m.cell_width as i64);
    let y: i64 = (line_idx as i64) * (m.cell_height as i64);
    let ghost pre_margin = ops@;
    ops.push(
        DrawOp::ClearRect {
            x: margin_x,
            y,
            width: (m.pixel_width as i64) - margin_x,
            height: m.cell_height as i64,
            color: bg0,
        },
    );
    proof {
        assert forall|t: int|
            0 <= t < ops@.len() implies op_in_row_band(#[trigger] ops@[t], line_idx as int, *m) by {
            if t < pre_margin.len() {
                assert(ops@[t] == pre_margin[t]);
            }
        }
        assert forall|c2: int|
            last_cell_idx < c2 < num_cols implies exists|i: int|
                0 <= i < ops@.len() && (#[trigger] ops@[i]) == (#[trigger] spec_trailing_clear(
                    *m,
                    line_idx as int,
                    c2,
                    *cursor,
                    selection_start as int,
                    selection_end as int,
                    *palette,
                )) by {
            let w2 = choose|i: int|
                0 <= i < pre_margin.len() && pre_margin[i] == spec_trailing_clear(
                    *m,
                    line_idx as int,
                    c2,
                    *cursor,
                    selection_start as int,
                    selection_end as int,
                    *palette,
                );
            assert(ops@[w2] == pre_margin[w2]);
        }
        assert forall|kk: int, gg: int|
            base_cell_blit_present(
                ops@,
                line_idx as int,
                num_cols as int,
                clusters@,
                shaped@,
                *old(cache),
                *rasters,
                kk,
                gg,
            ) by {
            lemma_blit_present_stable(
                pre_margin,
                ops@,
                line_idx as int,
                num_cols as int,
                clusters@,
                shaped@,
                *old(cache),
                *rasters,
                kk,
                gg,
            );
        }
        assert forall|kk: int, gg: int|
            base_cell_clear_present(
                ops@,
                *m,
                line_idx as int,
                num_cols as int,
                clusters@,
                shaped@,
                *old(cache),
                *rasters,
                *cursor,
                selection_start as int,
                selection_end as int,
                *palette,
                kk,
                gg,
            ) by {
            lemma_base_clear_stable(
                pre_margin,
                ops@,
                *m,
                line_idx as int,
                num_cols as int,
                clusters@,
                shaped@,
                *old(cache),
                *rasters,
                *cursor,
                selection_start as int,
                selection_end as int,
                *palette,
                kk,
                gg,
            );
        }
        assert(ops@.last() == spec_right_margin_clear(
            *m,
            line_idx as int,
            num_cols as int,
            *palette,
        ));
        assert forall|t: int|
            0 <= t < ops@.len() - 1 implies op_within_columns(
            #[trigger] ops@[t],
            num_cols as int,
            *m,
        ) by {
            assert(ops@[t] == pre_margin[t]);
        }
        assert forall|t: int|
            0 <= t < ops@.len() implies match #[trigger] ops@[t] {
            DrawOp::DrawLine { x1, x2, y, color } => spec_decoration_justified(
                x1 as int,
                x2 as int,
                y as int,
                color,
                *m,
                line_idx as int,
                num_cols as int,
                clusters@,
                shaped@,
                *cursor,
                selection_start as int,
                selection_end as int,
                *palette,
                current_highlight,
            ),
            DrawOp::DrawSprite { cell_col, op: cop, .. } => spec_blit_tint_justified(
                cop,
                cell_col as int,
                *m,
                line_idx as int,
                clusters@,
                shaped@,
                *cursor,
                selection_start as int,
                selection_end as int,
                *palette,
            ),
            _ => true,
        } by {
            if t < pre_margin.len() {
                assert(ops@[t] == pre_margin[t]);
            }
        }
    }
    Ok(LineRender { ops, last_cell_idx })
}

} // verus!
