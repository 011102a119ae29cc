use wezterm::atlas::TextureAtlas;
use wezterm::color::{
    compute_cell_fg_bg, resolve_cluster_fg, rgbcolor_to_window_color, Color, ColorAttribute,
    ColorPalette, CursorPosition, RgbColor,
};
use wezterm::frame::{paint, paint_tab, LineSnapshot, TermSnapshot};
use wezterm::glyphcache::{GlyphCache, GlyphKey, RasterizedGlyph, ShapedGlyphMetrics};
use wezterm::line::{Cell, CellAttributes, Line, Underline};
use wezterm::metrics::DecorationRows;
use wezterm::renderer::{
    render_screen_line, ClusterShaping, CompositeOp, DrawOp, GlyphInfo, RasterSource,
    RenderMetrics,
};

fn rgb(red: u8, green: u8, blue: u8) -> RgbColor {
    RgbColor { red, green, blue }
}

fn test_palette() -> ColorPalette {
    let mut colors = Vec::new();
    for i in 0..256usize {
        colors.push(rgb(i as u8, 0, 0));
    }
    ColorPalette {
        foreground: rgb(200, 200, 200),
        background: rgb(10, 20, 30),
        cursor_fg: rgb(1, 1, 1),
        cursor_bg: rgb(2, 2, 2),
        selection_fg: rgb(3, 3, 3),
        selection_bg: rgb(4, 4, 4),
        colors,
    }
}

fn default_attrs() -> CellAttributes {
    CellAttributes {
        foreground: ColorAttribute::Default,
        background: ColorAttribute::Default,
        bold: false,
        underline: Underline::Off,
        strikethrough: false,
        reverse: false,
        hyperlink: None,
    }
}

fn test_metrics() -> RenderMetrics {
    RenderMetrics {
        cell_width: 8,
        cell_height: 16,
        dec_rows: DecorationRows {
            descender_row: 16,
            descender_plus_one: 15,
            descender_plus_two: 15,
            strike_row: 8,
        },
        pixel_width: 16,
        pixel_height: 160,
    }
}

#[test]
fn brightening_shifts_low_palette_indices_on_bold() {
    let palette = test_palette();
    // index 3 stays index 3 without bold
    let plain = resolve_cluster_fg(&palette, ColorAttribute::PaletteIndex(3), false, None);
    assert_eq!(plain, rgb(3, 0, 0));
    // bold promotes 3 to its bright counterpart 11
    let bold = resolve_cluster_fg(&palette, ColorAttribute::PaletteIndex(3), true, None);
    assert_eq!(bold, rgb(11, 0, 0));
    // indices of 8 and above are never shifted
    let high = resolve_cluster_fg(&palette, ColorAttribute::PaletteIndex(9), true, None);
    assert_eq!(high, rgb(9, 0, 0));
    let edge = resolve_cluster_fg(&palette, ColorAttribute::PaletteIndex(8), true, None);
    assert_eq!(edge, rgb(8, 0, 0));
}

#[test]
fn default_foreground_prefers_the_style() {
    let palette = test_palette();
    let styled = resolve_cluster_fg(&palette, ColorAttribute::Default, true, Some(rgb(9, 9, 9)));
    assert_eq!(styled, rgb(9, 9, 9));
    let unstyled = resolve_cluster_fg(&palette, ColorAttribute::Default, true, None);
    assert_eq!(unstyled, rgb(200, 200, 200));
}

#[test]
fn cursor_overrides_selection_overrides_cluster() {
    let palette = test_palette();
    let fg = rgbcolor_to_window_color(rgb(100, 100, 100));
    let bg = rgbcolor_to_window_color(rgb(50, 50, 50));
    let cursor = CursorPosition { x: 2, y: 1 };
    // plain cell keeps the cluster colors
    let plain = compute_cell_fg_bg(1, 0, &cursor, 5, 8, fg, bg, &palette);
    assert_eq!(plain, (fg, bg));
    // selected cell takes the selection colors
    let selected = compute_cell_fg_bg(1, 6, &cursor, 5, 8, fg, bg, &palette);
    assert_eq!(selected.1, rgbcolor_to_window_color(rgb(4, 4, 4)));
    // the cursor cell wins even when selected
    let cursor_cell = compute_cell_fg_bg(1, 2, &cursor, 0, 8, fg, bg, &palette);
    assert_eq!(cursor_cell.0, rgbcolor_to_window_color(rgb(1, 1, 1)));
    assert_eq!(cursor_cell.1, rgbcolor_to_window_color(rgb(2, 2, 2)));
}

#[test]
fn cluster_splits_on_attribute_changes() {
    let mut attrs_b = default_attrs();
    attrs_b.bold = true;
    let line = Line {
        cells: vec![
            Cell { ch: 'a', attrs: default_attrs() },
            Cell { ch: 'b', attrs: default_attrs() },
            Cell { ch: 'c', attrs: attrs_b },
        ],
    };
    let clusters = line.cluster();
    assert_eq!(clusters.len(), 2);
    assert_eq!(clusters[0].first_cell_idx, 0);
    assert_eq!(clusters[0].text, vec!['a', 'b']);
    assert_eq!(clusters[1].first_cell_idx, 2);
    assert_eq!(clusters[1].text, vec!['c']);
}

#[test]
fn cluster_of_empty_line_is_empty() {
    let line = Line { cells: Vec::new() };
    assert!(line.cluster().is_empty());
}

#[test]
fn end_to_end_single_glyph_line() {
    // a 1-cell glyph for 'A' at column 0, default attributes, 8x16 cells
    let m = RenderMetrics { pixel_width: 8, ..test_metrics() };
    let palette = test_palette();
    let mut cache = GlyphCache::new();
    let mut atlas = TextureAtlas::new(64);
    let line = Line { cells: vec![Cell { ch: 'A', attrs: default_attrs() }] };
    let clusters = line.cluster();
    let key = GlyphKey { font_idx: 0, glyph_pos: 65, style: 0 };
    let shaped = vec![ClusterShaping {
        style: 0,
        style_foreground: None,
        glyphs: vec![GlyphInfo {
            cluster_offset: 0,
            font_idx: 0,
            glyph_pos: 65,
            metrics: ShapedGlyphMetrics { x_advance: 8, x_offset: 0, y_offset: 0, num_cells: 1 },
        }],
    }];
    let rasters = RasterSource {
        entries: vec![(
            key,
            RasterizedGlyph { width: 6, height: 12, bearing_x: 1, bearing_y: 12, has_color: false },
        )],
    };
    let cursor = CursorPosition { x: 5, y: 5 };
    let out = render_screen_line(
        &m, 0, 1, &clusters, &shaped, 0, 0, &cursor, None, &palette, &mut cache, &mut atlas,
        &rasters,
    )
    .unwrap();
    let bg = rgbcolor_to_window_color(rgb(10, 20, 30));
    let fg = rgbcolor_to_window_color(rgb(200, 200, 200));
    // one background clear over the cell, one blit, no decoration lines
    assert_eq!(out.ops.len(), 3);
    assert_eq!(
        out.ops[0],
        DrawOp::ClearRect { x: 0, y: 0, width: 8, height: 16, color: bg }
    );
    match out.ops[1] {
        DrawOp::DrawSprite { x, y, cell_col, cell_row, sprite, slice_cell, num_cells, op } => {
            // x = bearing_x, y = 16 - (y_offset + bearing_y)
            assert_eq!(x, 1);
            assert_eq!(y, 4);
            assert_eq!(cell_col, 0);
            assert_eq!(cell_row, 0);
            assert_eq!(sprite.generation, 0);
            assert_eq!(sprite.rect.width, 6);
            assert_eq!(sprite.rect.height, 12);
            assert_eq!(slice_cell, 0);
            assert_eq!(num_cells, 1);
            assert_eq!(op, CompositeOp::MultiplyThenOver(fg));
        },
        _ => panic!("expected a sprite blit"),
    }
    // the right margin beyond the single column is cleared
    assert_eq!(
        out.ops[2],
        DrawOp::ClearRect { x: 8, y: 0, width: 0, height: 16, color: bg }
    );
}

#[test]
fn decorations_follow_the_attributes() {
    let m = RenderMetrics { pixel_width: 8, ..test_metrics() };
    let palette = test_palette();
    let mut cache = GlyphCache::new();
    let mut atlas = TextureAtlas::new(64);
    let mut attrs = default_attrs();
    attrs.underline = Underline::Double;
    attrs.strikethrough = true;
    let line = Line { cells: vec![Cell { ch: 'A', attrs }] };
    let clusters = line.cluster();
    let shaped = vec![ClusterShaping {
        style: 0,
        style_foreground: None,
        glyphs: vec![GlyphInfo {
            cluster_offset: 0,
            font_idx: 0,
            glyph_pos: 65,
            metrics: ShapedGlyphMetrics { x_advance: 8, x_offset: 0, y_offset: 0, num_cells: 1 },
        }],
    }];
    let rasters = RasterSource { entries: Vec::new() };
    let cursor = CursorPosition { x: 5, y: 5 };
    let out = render_screen_line(
        &m, 0, 1, &clusters, &shaped, 0, 0, &cursor, None, &palette, &mut cache, &mut atlas,
        &rasters,
    )
    .unwrap();
    // with no rasterization available the glyph is skipped entirely: the
    // degraded path leaves only the trailing margin clear
    assert_eq!(out.ops.len(), 1);

    // with a rasterization, the cell gets its clear, a double underline at
    // the descender row and two below it, a strikethrough, and the blit
    let key = GlyphKey { font_idx: 0, glyph_pos: 65, style: 0 };
    let rasters = RasterSource {
        entries: vec![(
            key,
            RasterizedGlyph { width: 6, height: 12, bearing_x: 1, bearing_y: 12, has_color: false },
        )],
    };
    let out = render_screen_line(
        &m, 0, 1, &clusters, &shaped, 0, 0, &cursor, None, &palette, &mut cache, &mut atlas,
        &rasters,
    )
    .unwrap();
    let fg = rgbcolor_to_window_color(rgb(200, 200, 200));
    assert_eq!(out.ops.len(), 6);
    assert!(matches!(out.ops[0], DrawOp::ClearRect { .. }));
    assert_eq!(out.ops[1], DrawOp::DrawLine { x1: 0, x2: 8, y: 16, color: fg });
    assert_eq!(out.ops[2], DrawOp::DrawLine { x1: 0, x2: 8, y: 15, color: fg });
    assert_eq!(out.ops[3], DrawOp::DrawLine { x1: 0, x2: 8, y: 8, color: fg });
    assert!(matches!(out.ops[4], DrawOp::DrawSprite { .. }));
    assert!(matches!(out.ops[5], DrawOp::ClearRect { .. }));
}

#[test]
fn hovered_hyperlink_forces_a_single_underline() {
    let m = RenderMetrics { pixel_width: 8, ..test_metrics() };
    let palette = test_palette();
    let mut cache = GlyphCache::new();
    let mut atlas = TextureAtlas::new(64);
    let mut attrs = default_attrs();
    attrs.hyperlink = Some(42);
    let line = Line { cells: vec![Cell { ch: 'A', attrs }] };
    let clusters = line.cluster();
    let key = GlyphKey { font_idx: 0, glyph_pos: 65, style: 0 };
    let shaped = vec![ClusterShaping {
        style: 0,
        style_foreground: None,
        glyphs: vec![GlyphInfo {
            cluster_offset: 0,
            font_idx: 0,
            glyph_pos: 65,
            metrics: ShapedGlyphMetrics { x_advance: 8, x_offset: 0, y_offset: 0, num_cells: 1 },
        }],
    }];
    let rasters = RasterSource {
        entries: vec![(
            key,
            RasterizedGlyph { width: 6, height: 12, bearing_x: 1, bearing_y: 12, has_color: false },
        )],
    };
    let cursor = CursorPosition { x: 5, y: 5 };
    // hovering link 42: the underline appears although the attribute is off
    let out = render_screen_line(
        &m, 0, 1, &clusters, &shaped, 0, 0, &cursor, Some(42), &palette, &mut cache, &mut atlas,
        &rasters,
    )
    .unwrap();
    let fg = rgbcolor_to_window_color(rgb(200, 200, 200));
    assert_eq!(out.ops.len(), 4);
    assert_eq!(out.ops[1], DrawOp::DrawLine { x1: 0, x2: 8, y: 15, color: fg });
    // hovering a different link leaves the cell undecorated
    let out2 = render_screen_line(
        &m, 0, 1, &clusters, &shaped, 0, 0, &cursor, Some(7), &palette, &mut cache, &mut atlas,
        &rasters,
    )
    .unwrap();
    assert_eq!(out2.ops.len(), 3);
    assert!(matches!(out2.ops[1], DrawOp::DrawSprite { .. }));
}

fn blank_snapshot_line(line_idx: usize, dirty: bool) -> LineSnapshot {
    LineSnapshot {
        line_idx,
        line: Line { cells: vec![Cell { ch: ' ', attrs: default_attrs() }] },
        shaped: Vec::new(),
        selection_start: 0,
        selection_end: 0,
        dirty,
    }
}

#[test]
fn paint_touches_only_dirty_rows() {
    let m = test_metrics();
    let palette = test_palette();
    let mut cache = GlyphCache::new();
    let mut atlas = TextureAtlas::new(64);
    let rasters = RasterSource { entries: Vec::new() };
    let mut lines = Vec::new();
    for i in 0..10usize {
        lines.push(blank_snapshot_line(i, i == 2 || i == 5));
    }
    let snapshot = TermSnapshot {
        phys_rows: 10,
        phys_cols: 2,
        cursor: CursorPosition { x: 0, y: 0 },
        current_highlight: None,
        lines,
    };
    let result = paint(&m, &snapshot, &palette, &mut cache, &mut atlas, &rasters);
    assert!(result.completed);
    assert!(result.rebuilt.is_none());
    // the pass ends by telling the terminal model to mark the lines clean
    let ops = &result.ops;
    assert!(!ops.is_empty());
    // every op but the final bottom margin stays in rows 2 or 5
    let allowed: Vec<(i64, i64)> = vec![(32, 48), (80, 96)];
    for op in &ops[..ops.len() - 1] {
        let y = match *op {
            DrawOp::ClearRect { y, .. } => y,
            DrawOp::DrawLine { y, .. } => y,
            DrawOp::DrawSprite { y, .. } => y,
        };
        assert!(allowed.iter().any(|&(lo, hi)| lo <= y && y < hi), "op outside dirty rows: {y}");
    }
    // the final op clears the margin below the last row
    assert_eq!(
        ops[ops.len() - 1],
        DrawOp::ClearRect {
            x: 0,
            y: 160,
            width: 16,
            height: 0,
            color: rgbcolor_to_window_color(rgb(10, 20, 30)),
        }
    );
}

fn huge_glyph_line(ch: char, glyph_pos: u32) -> (LineSnapshot, (GlyphKey, RasterizedGlyph)) {
    let key = GlyphKey { font_idx: 0, glyph_pos, style: 0 };
    let raster = RasterizedGlyph {
        width: 40000,
        height: 40000,
        bearing_x: 0,
        bearing_y: 0,
        has_color: false,
    };
    let line = LineSnapshot {
        line_idx: 0,
        line: Line { cells: vec![Cell { ch, attrs: default_attrs() }] },
        shaped: vec![ClusterShaping {
            style: 0,
            style_foreground: None,
            glyphs: vec![GlyphInfo {
                cluster_offset: 0,
                font_idx: 0,
                glyph_pos,
                metrics: ShapedGlyphMetrics {
                    x_advance: 40000,
                    x_offset: 0,
                    y_offset: 0,
                    num_cells: 1,
                },
            }],
        }],
        selection_start: 0,
        selection_end: 0,
        dirty: true,
    };
    (line, (key, raster))
}

fn huge_metrics() -> RenderMetrics {
    RenderMetrics {
        cell_width: 40000,
        cell_height: 40000,
        dec_rows: DecorationRows {
            descender_row: 40000,
            descender_plus_one: 39999,
            descender_plus_two: 39999,
            strike_row: 20000,
        },
        pixel_width: 40000,
        pixel_height: 40000,
    }
}

#[test]
fn atlas_exhaustion_rebuilds_and_retries_once() {
    let m = huge_metrics();
    let palette = test_palette();
    let mut cache = GlyphCache::new();
    let mut atlas = TextureAtlas::new(4);
    let (line, entry) = huge_glyph_line('A', 65);
    let rasters = RasterSource { entries: vec![entry] };
    let snapshot = TermSnapshot {
        phys_rows: 1,
        phys_cols: 1,
        cursor: CursorPosition { x: 0, y: 0 },
        current_highlight: None,
        lines: vec![line],
    };
    let result = paint(&m, &snapshot, &palette, &mut cache, &mut atlas, &rasters);
    // the 40000 px glyph cannot fit a 4 px atlas: rebuild at the needed size
    assert!(result.completed);
    assert_eq!(result.rebuilt, Some(40000));
    assert_eq!(atlas.size(), 40000);
    assert!(!result.ops.is_empty());
}

#[test]
fn second_exhaustion_abandons_the_frame() {
    let m = huge_metrics();
    let palette = test_palette();
    let mut cache = GlyphCache::new();
    let mut atlas = TextureAtlas::new(4);
    let (mut line, entry_a) = huge_glyph_line('A', 65);
    let (line_b, entry_b) = huge_glyph_line('B', 66);
    // one line, two giant glyphs: the rebuilt atlas holds only the first
    line.line.cells.push(Cell { ch: 'B', attrs: default_attrs() });
    line.shaped[0].glyphs.push(line_b.shaped[0].glyphs[0]);
    let rasters = RasterSource { entries: vec![entry_a, entry_b] };
    let snapshot = TermSnapshot {
        phys_rows: 1,
        phys_cols: 2,
        cursor: CursorPosition { x: 0, y: 0 },
        current_highlight: None,
        lines: vec![line],
    };
    let m = RenderMetrics { pixel_width: 80000, ..m };
    let result = paint(&m, &snapshot, &palette, &mut cache, &mut atlas, &rasters);
    assert!(!result.completed);
    assert_eq!(result.rebuilt, Some(40000));
    assert!(result.ops.is_empty());
}

#[test]
fn paint_tab_skips_lines_outside_the_grid() {
    let m = test_metrics();
    let palette = test_palette();
    let mut cache = GlyphCache::new();
    let mut atlas = TextureAtlas::new(64);
    let rasters = RasterSource { entries: Vec::new() };
    let snapshot = TermSnapshot {
        phys_rows: 2,
        phys_cols: 2,
        cursor: CursorPosition { x: 0, y: 0 },
        current_highlight: None,
        lines: vec![blank_snapshot_line(7, true)],
    };
    let ops = paint_tab(&m, &snapshot, &palette, &mut cache, &mut atlas, &rasters, false).unwrap();
    // only the bottom margin clear remains
    assert_eq!(ops.len(), 1);
}

#[test]
fn missing_tab_blanks_the_window() {
    let m = test_metrics();
    let op = wezterm::frame::paint_without_tab(&m);
    assert_eq!(
        op,
        DrawOp::ClearRect {
            x: 0,
            y: 0,
            width: 16,
            height: 160,
            color: Color { red: 0, green: 0, blue: 0, alpha: 0xff },
        }
    );
}

#[test]
fn wide_glyph_columns_are_truncated_at_the_grid() {
    // a 3-cell glyph starting at the last column: only that column is painted
    let m = test_metrics();
    let palette = test_palette();
    let mut cache = GlyphCache::new();
    let mut atlas = TextureAtlas::new(64);
    let line = Line { cells: vec![Cell { ch: 'W', attrs: default_attrs() }] };
    let clusters = line.cluster();
    let key = GlyphKey { font_idx: 0, glyph_pos: 87, style: 0 };
    let shaped = vec![ClusterShaping {
        style: 0,
        style_foreground: None,
        glyphs: vec![GlyphInfo {
            cluster_offset: 0,
            font_idx: 0,
            glyph_pos: 87,
            metrics: ShapedGlyphMetrics { x_advance: 24, x_offset: 0, y_offset: 0, num_cells: 3 },
        }],
    }];
    let rasters = RasterSource {
        entries: vec![(
            key,
            RasterizedGlyph { width: 20, height: 12, bearing_x: 0, bearing_y: 12, has_color: false },
        )],
    };
    let cursor = CursorPosition { x: 9, y: 9 };
    let out = render_screen_line(
        &m, 0, 2, &clusters, &shaped, 0, 0, &cursor, None, &palette, &mut cache, &mut atlas,
        &rasters,
    )
    .unwrap();
    // every op but the final margin clear stays left of column 2
    for op in &out.ops[..out.ops.len() - 1] {
        match *op {
            DrawOp::ClearRect { x, width, .. } => assert!(x + width <= 16),
            DrawOp::DrawLine { x2, .. } => assert!(x2 <= 16),
            DrawOp::DrawSprite { cell_col, .. } => assert!(cell_col < 2),
        }
    }
}
