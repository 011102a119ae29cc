//! Frame orchestration: one paint pass over the dirty lines of the active
//! tab, and the bounded atlas-exhaustion recovery around it.
//!
//! A paint pass renders only the dirty lines and then clears the pixel
//! margin below the last row.  If any allocation exhausts the texture
//! atlas, the atlas is rebuilt at a size that satisfies the failed request,
//! the glyph cache is dropped, every line is treated as dirty again, and
//! the frame is re-run exactly once; a second exhaustion abandons the frame
//! and leaves the window with stale pixels until the next repaint.

use crate::atlas::TextureAtlas;
use crate::color::{ColorPalette, CursorPosition};
use crate::glyphcache::GlyphCache;
use crate::line::{is_clustering, Line};
use crate::line::CellCluster;
use crate::renderer::{
    op_in_row_band, render_screen_line, spec_exhaustion_witness, spec_line_exhausted,
    spec_unfittable_candidate, ClusterShaping, DrawOp, RasterSource, RenderMetrics,
};
use crate::atlas::OutOfTextureSpace;
use vstd::prelude::*;

verus! {

/// One line of the point-in-time terminal snapshot a frame works from:
/// its row index, content, shaping results, selection range, and whether
/// the terminal model reported it dirty.
pub struct LineSnapshot {
    pub line_idx: usize,
    pub line: Line,
    pub shaped: Vec<ClusterShaping>,
    pub selection_start: usize,
    pub selection_end: usize,
    pub dirty: bool,
}

/// The point-in-time state read from the terminal model for one frame.
pub struct TermSnapshot {
    pub phys_rows: usize,
    pub phys_cols: usize,
    pub cursor: CursorPosition,
    pub current_highlight: Option<u64>,
    pub lines: Vec<LineSnapshot>,
}

/// The clear of the pixel margin below the last physical row.
pub open spec fn spec_bottom_margin_clear(
    m: RenderMetrics,
    phys_rows: int,
    palette: ColorPalette,
) -> DrawOp {
    DrawOp::ClearRect {
        x: 0,
        y: (phys_rows * m.cell_height) as i64,
        width: m.pixel_width as i64,
        height: (m.pixel_height - phys_rows * m.cell_height) as i64,
        color: crate::color::Color {
            red: palette.background.red,
            green: palette.background.green,
            blue: palette.background.blue,
            alpha: 0xff,
        },
    }
}

/// The op lies in the pixel band of some line that this pass rendered.
pub open spec fn op_in_some_rendered_band(
    op: DrawOp,
    lines: Seq<LineSnapshot>,
    render_all: bool,
    m: RenderMetrics,
) -> bool {
    exists|d: int|
        0 <= d < lines.len() && ((#[trigger] lines[d]).dirty || render_all) && op_in_row_band(
            op,
            lines[d].line_idx as int,
            m,
        )
}

/// Every op before the final bottom-margin clear lies in the pixel band of
/// some line that this pass rendered.
pub open spec fn ops_damage_confined(
    ops: Seq<DrawOp>,
    lines: Seq<LineSnapshot>,
    render_all: bool,
    m: RenderMetrics,
) -> bool {
    forall|i: int|
        0 <= i < ops.len() - 1 ==> op_in_some_rendered_band(#[trigger] ops[i], lines, render_all, m)
}

/// An exhaustion signal is honest for a frame when some rendered line
/// holds a drawable, unmemoized glyph that demanded exactly the signalled
/// size.
pub open spec fn spec_frame_exhausted(
    e: OutOfTextureSpace,
    lines: Seq<LineSnapshot>,
    render_all: bool,
    phys_rows: int,
    cache: crate::glyphcache::GlyphCache,
    rasters: RasterSource,
    cell_width: int,
    cell_height: int,
) -> bool {
    exists|d: int, cl: Seq<CellCluster>|
        #![trigger is_clustering(lines[d].line.cells@, cl)]
        0 <= d < lines.len() && (lines[d].dirty || render_all) && lines[d].line_idx < phys_rows
            && is_clustering(lines[d].line.cells@, cl) && spec_line_exhausted(
            e,
            cl,
            lines[d].shaped@,
            cache,
            rasters,
            cell_width,
            cell_height,
        )
}

/// Some rendered line holds a drawable glyph with an acceptable, nonempty
/// rasterization: only such a frame can exhaust the atlas at all.
pub open spec fn spec_frame_unfittable(
    lines: Seq<LineSnapshot>,
    phys_rows: int,
    rasters: RasterSource,
) -> bool {
    exists|d: int, cl: Seq<CellCluster>, kk: int, gg: int|
        #![trigger is_clustering(lines[d].line.cells@, cl), spec_unfittable_candidate(cl, lines[d].shaped@, rasters, kk, gg)]
        0 <= d < lines.len() && lines[d].line_idx < phys_rows && is_clustering(
            lines[d].line.cells@,
            cl,
        ) && spec_unfittable_candidate(cl, lines[d].shaped@, rasters, kk, gg)
}

/// A rebuild is justified when an honest exhaustion signal demanded it,
/// and the new side is exactly the growth rule applied to that signal.
pub open spec fn spec_rebuild_justified(
    new_side: u32,
    old_side: u32,
    lines: Seq<LineSnapshot>,
    phys_rows: int,
    cache: crate::glyphcache::GlyphCache,
    rasters: RasterSource,
    cell_width: int,
    cell_height: int,
) -> bool {
    exists|e: OutOfTextureSpace|
        #![trigger spec_frame_exhausted(e, lines, false, phys_rows, cache, rasters, cell_width, cell_height)]
        spec_frame_exhausted(e, lines, false, phys_rows, cache, rasters, cell_width, cell_height)
            && new_side == spec_grow_size(e.size, old_side)
}

/// The side the recovery rebuilds at: the signalled demand, never below
/// the current surface, capped at the largest admissible side.
pub open spec fn spec_grow_size(signalled: u32, current: u32) -> u32 {
    let wanted = if signalled > current {
        signalled
    } else {
        current
    };
    if wanted > 0x4000_0000 {
        0x4000_0000u32
    } else {
        wanted
    }
}

/// One paint pass: renders every line reported dirty (every line, when
/// `render_all` is set, as in the recovery pass), then clears the margin
/// below the last row.  Lines whose index lies outside the physical grid
/// are ignored.  On success the emitted ops touch only the rendered lines'
/// pixel bands, and the final op is the bottom-margin clear; the caller
/// must then tell the terminal model to mark those lines clean.  On atlas
/// exhaustion the pass aborts for recovery.
pub fn paint_tab(
    m: &RenderMetrics,
    snapshot: &TermSnapshot,
    palette: &ColorPalette,
    cache: &mut GlyphCache,
    atlas: &mut TextureAtlas,
    rasters: &RasterSource,
    render_all: bool,
) -> (r: Result<Vec<DrawOp>, crate::atlas::OutOfTextureSpace>)
    requires
        m.wf(),
        palette.wf(),
        rasters.keys_unique(),
        old(cache).wf_for(old(atlas).spec_generation()),
        old(atlas).wf(),
        snapshot.phys_rows * m.cell_height <= m.pixel_height,
        snapshot.phys_cols * m.cell_width <= m.pixel_width,
        snapshot.phys_cols <= 0x100_0000,
        snapshot.phys_rows <= 0x100_0000,
    ensures
        final(cache).wf_for(final(atlas).spec_generation()),
        final(atlas).wf(),
        final(atlas).spec_generation() == old(atlas).spec_generation(),
        final(atlas).spec_size() == old(atlas).spec_size(),
        match r {
            Ok(ops) => {
                &&& ops@.len() > 0
                &&& ops@.last() == spec_bottom_margin_clear(
                    *m,
                    snapshot.phys_rows as int,
                    *palette,
                )
                &&& ops_damage_confined(ops@, snapshot.lines@, render_all, *m)
            },
            Err(e) => spec_frame_exhausted(
                e,
                snapshot.lines@,
                render_all,
                snapshot.phys_rows as int,
                *old(cache),
                *rasters,
                m.cell_width as int,
                m.cell_height as int,
            ),
        },
        forall|key: crate::glyphcache::GlyphKey|
            #![trigger final(cache).contains_key(key)]
            old(cache).contains_key(key) ==> final(cache).contains_key(key),
        forall|key: crate::glyphcache::GlyphKey|
            #![trigger final(cache).contains_key(key)]
            final(cache).contains_key(key) ==> old(cache).contains_key(key)
                || rasters.contains_key(key),
{
    let mut ops: Vec<DrawOp> = Vec::new();
    let mut d: usize = 0;
    while d < snapshot.lines.len()
        invariant
            m.wf(),
            palette.wf(),
            rasters.keys_unique(),
            cache.wf_for(atlas.spec_generation()),
            atlas.wf(),
            atlas.spec_generation() == old(atlas).spec_generation(),
            atlas.spec_size() == old(atlas).spec_size(),
            snapshot.phys_rows * m.cell_height <= m.pixel_height,
            snapshot.phys_cols * m.cell_width <= m.pixel_width,
            snapshot.phys_cols <= 0x100_0000,
            snapshot.phys_rows <= 0x100_0000,
            forall|i: int|
                0 <= i < ops@.len() ==> op_in_some_rendered_band(
                    #[trigger] ops@[i],
                    snapshot.lines@,
                    render_all,
                    *m,
                ),
            forall|key: crate::glyphcache::GlyphKey|
                #![trigger cache.contains_key(key)]
                old(cache).contains_key(key) ==> cache.contains_key(key),
            forall|key: crate::glyphcache::GlyphKey|
                #![trigger cache.contains_key(key)]
                cache.contains_key(key) ==> old(cache).contains_key(key)
                    || rasters.contains_key(key),
        decreases snapshot.lines.len() - d,
    {
        let ls = &snapshot.lines[d];
        if (ls.dirty || render_all) && ls.line_idx < snapshot.phys_rows {
            proof {
                assert(ls.line_idx * m.cell_height + m.cell_height <= snapshot.phys_rows
                    * m.cell_height) by (nonlinear_arith)
                    requires
                        0 <= ls.line_idx < snapshot.phys_rows,
                        m.cell_height >= 1,
                ;
            }
            let clusters = ls.line.cluster();
            let ghost cache_d = *cache;
            let rendered = render_screen_line(
                m,
                ls.line_idx,
                snapshot.phys_cols,
                &clusters,
                &ls.shaped,
                ls.selection_start,
                ls.selection_end,
                &snapshot.cursor,
                snapshot.current_highlight,
                palette,
                cache,
                atlas,
                rasters,
            );
            let mut line_out = match rendered {
                Ok(out) => out,
                Err(e) => {
                    proof {
                        // the failing glyph was unmemoized at the line's start,
                        // so it was unmemoized at the frame's start too
                        let (kk, gg) = choose|kk: int, gg: int|
                            spec_exhaustion_witness(
                                e,
                                clusters@,
                                ls.shaped@,
                                cache_d,
                                *rasters,
                                m.cell_width as int,
                                m.cell_height as int,
                                kk,
                                gg,
                            );
                        assert(spec_exhaustion_witness(
                            e,
                            clusters@,
                            ls.shaped@,
                            *old(cache),
                            *rasters,
                            m.cell_width as int,
                            m.cell_height as int,
                            kk,
                            gg,
                        ));
                        assert(spec_line_exhausted(
                            e,
                            clusters@,
                            ls.shaped@,
                            *old(cache),
                            *rasters,
                            m.cell_width as int,
                            m.cell_height as int,
                        ));
                        assert(is_clustering(snapshot.lines@[d as int].line.cells@, clusters@));
                        assert(spec_frame_exhausted(
                            e,
                            snapshot.lines@,
                            render_all,
                            snapshot.phys_rows as int,
                            *old(cache),
                            *rasters,
                            m.cell_width as int,
                            m.cell_height as int,
                        ));
                    }
                    return Err(e);
                },
            };
            let ghost pre = ops@;
            let ghost line_ops = line_out.ops@;
            ops.append(&mut line_out.ops);
            proof {
                assert(ops@ =~= pre + line_ops);
                assert forall|i: int|
                    0 <= i < ops@.len() implies op_in_some_rendered_band(
                    #[trigger] ops@[i],
                    snapshot.lines@,
                    render_all,
                    *m,
                ) by {
                    if i < pre.len() {
                        assert(ops@[i] == pre[i]);
                    } else {
                        assert(ops@[i] == line_ops[i - pre.len()]);
                        assert(op_in_row_band(ops@[i], ls.line_idx as int, *m));
                        assert(0 <= d < snapshot.lines@.len() && (snapshot.lines@[d as int].dirty
                            || render_all) && op_in_row_band(
                            ops@[i],
                            snapshot.lines@[d as int].line_idx as int,
                            *m,
                        ));
                    }
                }
            }
        }
        d = d + 1;
    }
    // fill the marginal area below the last row
    let bg0 = crate::color::rgbcolor_to_window_color(palette.background);
    proof {
        assert(snapshot.phys_rows * m.cell_height >= 0) by (nonlinear_arith)
            requires
                snapshot.phys_rows >= 0,
                m.cell_height >= 0,
        ;
    }
    let rows_px: i64 = (snapshot.phys_rows as i64) * (m.cell_height as i64);
    let ghost pre_margin = ops@;
    ops.push(
        DrawOp::ClearRect {
            x: 0,
            y: rows_px,
            width: m.pixel_width as i64,
            height: (m.pixel_height as i64) - rows_px,
            color: bg0,
        },
    );
    proof {
        assert forall|i: int|
            0 <= i < ops@.len() - 1 implies op_in_some_rendered_band(
            #[trigger] ops@[i],
            snapshot.lines@,
            render_all,
            *m,
        ) by {
            assert(ops@[i] == pre_margin[i]);
        }
        assert(ops@.last() == spec_bottom_margin_clear(*m, snapshot.phys_rows as int, *palette));
    }
    Ok(ops)
}

/// The whole-surface clear painted when the window has no active tab:
/// the window is blanked to black until a tab is attached again.
pub fn paint_without_tab(m: &RenderMetrics) -> (r: DrawOp)
    ensures
        r == (DrawOp::ClearRect {
            x: 0,
            y: 0,
            width: m.pixel_width as i64,
            height: m.pixel_height as i64,
            color: crate::color::Color { red: 0, green: 0, blue: 0, alpha: 0xff },
        }),
{
    DrawOp::ClearRect {
        x: 0,
        y: 0,
        width: m.pixel_width as i64,
        height: m.pixel_height as i64,
        color: crate::color::Color { red: 0, green: 0, blue: 0, alpha: 0xff },
    }
}

/// What a frame produced: the primitives to draw, whether the pass
/// completed (and the terminal model should mark the processed lines
/// clean), and the new atlas size if recovery rebuilt it.
pub struct FrameResult {
    pub ops: Vec<DrawOp>,
    pub completed: bool,
    pub rebuilt: Option<u32>,
}

/// Paints one frame with bounded atlas-exhaustion recovery: one pass over
/// the dirty lines; on exhaustion, rebuild the atlas at a size that covers
/// the failed request, drop the glyph cache, treat every line as dirty,
/// and re-run the frame exactly once.  A second exhaustion abandons the
/// frame: nothing is drawn and the lines stay dirty.
pub fn paint(
    m: &RenderMetrics,
    snapshot: &TermSnapshot,
    palette: &ColorPalette,
    cache: &mut GlyphCache,
    atlas: &mut TextureAtlas,
    rasters: &RasterSource,
) -> (r: FrameResult)
    requires
        m.wf(),
        palette.wf(),
        rasters.keys_unique(),
        old(cache).wf_for(old(atlas).spec_generation()),
        old(atlas).wf(),
        old(atlas).spec_generation() < u64::MAX,
        snapshot.phys_rows * m.cell_height <= m.pixel_height,
        snapshot.phys_cols * m.cell_width <= m.pixel_width,
        snapshot.phys_cols <= 0x100_0000,
        snapshot.phys_rows <= 0x100_0000,
    ensures
        final(cache).wf_for(final(atlas).spec_generation()),
        final(atlas).wf(),
        r.rebuilt is None ==> final(atlas).spec_generation() == old(atlas).spec_generation()
            && final(atlas).spec_size() == old(atlas).spec_size(),
        r.rebuilt is Some ==> final(atlas).spec_generation() == old(atlas).spec_generation() + 1
            && final(atlas).spec_size() == r.rebuilt->0 && r.rebuilt->0
            >= old(atlas).spec_size(),
        r.completed ==> {
            &&& r.ops@.len() > 0
            &&& r.ops@.last() == spec_bottom_margin_clear(*m, snapshot.phys_rows as int, *palette)
            &&& ops_damage_confined(r.ops@, snapshot.lines@, r.rebuilt is Some, *m)
        },
        !r.completed ==> r.ops@.len() == 0 && r.rebuilt is Some,
        // the frame completes unless some line genuinely holds a drawable
        // glyph; the dual reading of this clause is completion owed
        !r.completed ==> spec_frame_unfittable(
            snapshot.lines@,
            snapshot.phys_rows as int,
            *rasters,
        ),
        // a rebuild happens only on an honest exhaustion signal, and its
        // size is the growth rule applied to that signal's demand
        r.rebuilt is Some ==> spec_rebuild_justified(
            r.rebuilt->0,
            old(atlas).spec_size(),
            snapshot.lines@,
            snapshot.phys_rows as int,
            *old(cache),
            *rasters,
            m.cell_width as int,
            m.cell_height as int,
        ),
        // after a rebuild the cache was emptied: whatever it now holds was
        // re-rasterized this frame
        r.rebuilt is Some ==> forall|key: crate::glyphcache::GlyphKey|
            #![trigger final(cache).contains_key(key)]
            final(cache).contains_key(key) ==> rasters.contains_key(key),
        forall|key: crate::glyphcache::GlyphKey|
            #![trigger final(cache).contains_key(key)]
            final(cache).contains_key(key) ==> old(cache).contains_key(key)
                || rasters.contains_key(key),
{
    match paint_tab(m, snapshot, palette, cache, atlas, rasters, false) {
        Ok(ops) => FrameResult { ops, completed: true, rebuilt: None },
        Err(e) => {
            // out of texture space: rebuild, drop the cache, and retry once
            let cur = atlas.size();
            let wanted: u32 = if e.size > cur {
                e.size
            } else {
                cur
            };
            let new_size: u32 = if wanted > 0x4000_0000 {
                0x4000_0000
            } else {
                wanted
            };
            proof {
                assert(new_size == spec_grow_size(e.size, old(atlas).spec_size()));
                assert(spec_rebuild_justified(
                    new_size,
                    old(atlas).spec_size(),
                    snapshot.lines@,
                    snapshot.phys_rows as int,
                    *old(cache),
                    *rasters,
                    m.cell_width as int,
                    m.cell_height as int,
                ));
            }
            atlas.rebuild(new_size);
            cache.clear();
            let ghost cleared = *cache;
            proof {
                assert(forall|key: crate::glyphcache::GlyphKey|
                    !(#[trigger] cleared.contains_key(key)));
            }
            match paint_tab(m, snapshot, palette, cache, atlas, rasters, true) {
                Ok(ops) => FrameResult { ops, completed: true, rebuilt: Some(new_size) },
                Err(e2) => {
                    // a second exhaustion within the retry: skip the frame
                    proof {
                        let (d, cl) = choose|d: int, cl: Seq<CellCluster>|
                            #![trigger is_clustering(snapshot.lines@[d].line.cells@, cl)]
                            0 <= d < snapshot.lines@.len() && (snapshot.lines@[d].dirty || true)
                                && snapshot.lines@[d].line_idx < snapshot.phys_rows
                                && is_clustering(snapshot.lines@[d].line.cells@, cl)
                                && spec_line_exhausted(
                                e2,
                                cl,
                                snapshot.lines@[d].shaped@,
                                cleared,
                                *rasters,
                                m.cell_width as int,
                                m.cell_height as int,
                            );
                        let (kk, gg) = choose|kk: int, gg: int|
                            spec_exhaustion_witness(
                                e2,
                                cl,
                                snapshot.lines@[d].shaped@,
                                cleared,
                                *rasters,
                                m.cell_width as int,
                                m.cell_height as int,
                                kk,
                                gg,
                            );
                        assert(spec_unfittable_candidate(
                            cl,
                            snapshot.lines@[d].shaped@,
                            *rasters,
                            kk,
                            gg,
                        ));
                        assert(spec_frame_unfittable(
                            snapshot.lines@,
                            snapshot.phys_rows as int,
                            *rasters,
                        ));
                    }
                    FrameResult { ops: Vec::new(), completed: false, rebuilt: Some(new_size) }
                },
            }
        },
    }
}

} // verus!
