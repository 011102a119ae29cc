use wezterm::atlas::{OutOfTextureSpace, Rect, TextureAtlas};
use wezterm::frac::{frac_value_eq, Frac};
use wezterm::glyphcache::{GlyphCache, GlyphKey, RasterizedGlyph, ShapedGlyphMetrics};
use wezterm::metrics::{compute_decoration_rows, compute_fit_scale, scale_dimension};

fn rects_overlap(a: &Rect, b: &Rect) -> bool {
    !(a.x + a.width <= b.x || b.x + b.width <= a.x || a.y + a.height <= b.y
        || b.y + b.height <= a.y)
}

#[test]
fn atlas_allocations_are_disjoint() {
    let mut atlas = TextureAtlas::new(64);
    let mut sprites = Vec::new();
    for (w, h) in [(10, 8), (20, 6), (30, 10), (40, 12), (25, 12), (64, 5)] {
        let s = atlas.allocate(w, h).expect("fits");
        assert_eq!(s.rect.width, w);
        assert_eq!(s.rect.height, h);
        assert_eq!(s.generation, 0);
        sprites.push(s);
    }
    for i in 0..sprites.len() {
        for j in 0..sprites.len() {
            if i != j {
                assert!(!rects_overlap(&sprites[i].rect, &sprites[j].rect));
            }
        }
    }
    assert_eq!(atlas.allocation_count(), 6);
}

#[test]
fn atlas_exhaustion_reports_size_and_keeps_state() {
    let mut atlas = TextureAtlas::new(4);
    atlas.allocate(4, 4).expect("fits exactly");
    let err = atlas.allocate(5, 5).expect_err("cannot fit");
    // the signal carries the minimum fresh side covering the request
    assert_eq!(err, OutOfTextureSpace { size: 5 });
    assert_eq!(atlas.size(), 4);
    assert_eq!(atlas.allocation_count(), 1);
    let err2 = atlas.allocate(100, 3).expect_err("cannot fit");
    assert_eq!(err2.size, 100);
}

#[test]
fn atlas_rebuild_starts_a_new_generation() {
    let mut atlas = TextureAtlas::new(16);
    let s0 = atlas.allocate(3, 3).unwrap();
    assert_eq!(s0.generation, 0);
    atlas.rebuild(32);
    assert_eq!(atlas.size(), 32);
    assert_eq!(atlas.allocation_count(), 0);
    let s1 = atlas.allocate(3, 3).unwrap();
    assert_eq!(s1.generation, 1);
}

fn sample_key() -> GlyphKey {
    GlyphKey { font_idx: 0, glyph_pos: 65, style: 7 }
}

fn sample_info() -> ShapedGlyphMetrics {
    ShapedGlyphMetrics { x_advance: 8, x_offset: 0, y_offset: 0, num_cells: 1 }
}

fn sample_raster() -> RasterizedGlyph {
    RasterizedGlyph { width: 6, height: 12, bearing_x: 1, bearing_y: 12, has_color: false }
}

#[test]
fn get_or_create_is_idempotent_per_key() {
    let mut cache = GlyphCache::new();
    let mut atlas = TextureAtlas::new(64);
    let key = sample_key();
    let (first, created) =
        cache.get_or_create(&mut atlas, key, &sample_info(), &sample_raster(), 8, 16).unwrap();
    assert!(created);
    assert_eq!(cache.len(), 1);
    // a second lookup ignores whatever the rasterizer would now produce
    let other_raster =
        RasterizedGlyph { width: 3, height: 3, bearing_x: 9, bearing_y: 9, has_color: true };
    let (second, created_again) =
        cache.get_or_create(&mut atlas, key, &sample_info(), &other_raster, 8, 16).unwrap();
    assert!(!created_again);
    assert_eq!(first, second);
    assert_eq!(cache.len(), 1);
    assert_eq!(atlas.allocation_count(), 1);
}

#[test]
fn cache_lookup_misses_unknown_keys() {
    let cache = GlyphCache::new();
    assert!(cache.lookup(&sample_key()).is_none());
}

#[test]
fn rebuild_and_clear_invalidate_all_sprites() {
    let mut cache = GlyphCache::new();
    let mut atlas = TextureAtlas::new(64);
    let key = sample_key();
    let (glyph, _) =
        cache.get_or_create(&mut atlas, key, &sample_info(), &sample_raster(), 8, 16).unwrap();
    assert_eq!(glyph.sprite.unwrap().generation, 0);
    // the atlas is rebuilt: the cache must be dropped with it
    atlas.rebuild(64);
    cache.clear();
    assert_eq!(cache.len(), 0);
    assert!(cache.lookup(&key).is_none());
    // the first use after invalidation rasterizes again, onto the new surface
    let (fresh, created) =
        cache.get_or_create(&mut atlas, key, &sample_info(), &sample_raster(), 8, 16).unwrap();
    assert!(created);
    assert_eq!(fresh.sprite.unwrap().generation, 1);
}

#[test]
fn whitespace_glyph_stores_no_sprite() {
    let mut cache = GlyphCache::new();
    let mut atlas = TextureAtlas::new(64);
    let raster = RasterizedGlyph { width: 0, height: 0, bearing_x: 0, bearing_y: 0, has_color: false };
    let (glyph, created) =
        cache.get_or_create(&mut atlas, sample_key(), &sample_info(), &raster, 8, 16).unwrap();
    assert!(created);
    assert!(glyph.sprite.is_none());
    assert_eq!(atlas.allocation_count(), 0);
}

#[test]
fn fit_scale_shrinks_horizontally_overflowing_glyph() {
    // cell_width 8, x_advance 20, num_cells 2: 10 per cell > 8, scale 16/20 = 0.8
    let scale = compute_fit_scale(20, 2, 8, 10, 16);
    assert_eq!(scale.num, 16);
    assert_eq!(scale.den, 20);
    assert!(frac_value_eq(&scale, &Frac { num: 4, den: 5 }));
}

#[test]
fn fit_scale_shrinks_tall_glyph() {
    let scale = compute_fit_scale(8, 1, 8, 20, 16);
    assert_eq!(scale.num, 16);
    assert_eq!(scale.den, 20);
}

#[test]
fn fit_scale_is_one_for_fitting_glyph() {
    let scale = compute_fit_scale(8, 1, 8, 12, 16);
    assert_eq!(scale, Frac { num: 1, den: 1 });
}

#[test]
fn scaled_dimension_rounds_down_but_stays_positive() {
    let scale = Frac { num: 4, den: 5 };
    assert_eq!(scale_dimension(10, &scale), 8);
    assert_eq!(scale_dimension(1, &scale), 1);
}

#[test]
fn scaled_bitmap_is_allocated_at_resampled_size() {
    let mut cache = GlyphCache::new();
    let mut atlas = TextureAtlas::new(64);
    // 20 px advance over 2 cells of 8: scale 0.8; a 10x10 bitmap resamples to 8x8
    let info = ShapedGlyphMetrics { x_advance: 20, x_offset: 5, y_offset: 0, num_cells: 2 };
    let raster = RasterizedGlyph { width: 10, height: 10, bearing_x: 2, bearing_y: 10, has_color: false };
    let (glyph, _) = cache.get_or_create(&mut atlas, sample_key(), &info, &raster, 8, 16).unwrap();
    let sprite = glyph.sprite.unwrap();
    assert_eq!(sprite.rect.width, 8);
    assert_eq!(sprite.rect.height, 8);
    // offsets and bearings carry the exact scaled values: 5 * 16/20 = 4, 2 * 16/20 = 1.6
    assert!(frac_value_eq(&glyph.x_offset, &Frac { num: 4, den: 1 }));
    assert!(frac_value_eq(&glyph.bearing_x, &Frac { num: 8, den: 5 }));
    // the resampled bitmap encodes the fit-scale: the stored scale is one
    assert!(frac_value_eq(&glyph.scale, &Frac { num: 1, den: 1 }));
}

#[test]
fn decoration_rows_follow_the_descender() {
    // cell height 16, descender -4: base row 12, single at 13, double at 12 and 14
    let rows = compute_decoration_rows(16, &Frac { num: -4, den: 1 });
    assert_eq!(rows.descender_row, 12);
    assert_eq!(rows.descender_plus_one, 13);
    assert_eq!(rows.descender_plus_two, 14);
    assert_eq!(rows.strike_row, 6);
    // rows clamp into the cell
    let low = compute_decoration_rows(16, &Frac { num: -1, den: 1 });
    assert_eq!(low.descender_row, 15);
    assert_eq!(low.descender_plus_one, 15);
    assert_eq!(low.descender_plus_two, 15);
}
