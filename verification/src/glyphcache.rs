//! Glyph cache: memoizes rasterized glyphs keyed by font, glyph id and style.
//!
//! A lookup hit returns the memoized entry untouched.  On a miss the caller
//! supplies the rasterization result (an external capability produced it),
//! the cache computes the fit-scale, allocates the resampled bitmap into the
//! bound texture atlas, stores the entry, and returns it.  The whole cache is
//! dropped whenever the atlas is rebuilt, because sprite handles are only
//! meaningful within one atlas generation: well-formedness ties every cached
//! sprite to the current generation, so no lookup after a rebuild can return
//! a handle onto the pre-rebuild surface.

use crate::atlas::{OutOfTextureSpace, Sprite, TextureAtlas};
use crate::frac::Frac;
use crate::metrics::{
    compute_fit_scale, scale_dimension, scale_measure, spec_fit_scale, spec_scaled_dim,
    GLYPH_DIM_BOUND,
};
use vstd::prelude::*;

verus! {

/// Identifies one rasterized visual variant of a glyph: the font index
/// within the fallback list, the glyph id inside that font, and an opaque
/// handle to the text style that selected the font.
#[derive(Clone, Copy, Debug, PartialEq, Eq, Structural)]
pub struct GlyphKey {
    pub font_idx: usize,
    pub glyph_pos: u32,
    pub style: usize,
}

/// What the rasterization capability returns for one glyph: the bitmap
/// dimensions and bearings.  A zero-size bitmap is a whitespace glyph.
#[derive(Clone, Copy, Debug, PartialEq, Eq, Structural)]
pub struct RasterizedGlyph {
    pub width: u32,
    pub height: u32,
    pub bearing_x: i32,
    pub bearing_y: i32,
    pub has_color: bool,
}

/// Shaping data for one glyph that the fit-scale rule reads: the horizontal
/// advance, the glyph offsets, and how many cells the glyph spans.
#[derive(Clone, Copy, Debug, PartialEq, Eq, Structural)]
pub struct ShapedGlyphMetrics {
    pub x_advance: u32,
    pub x_offset: i32,
    pub y_offset: i32,
    pub num_cells: u32,
}

/// One memoized glyph.  `sprite` is `None` for whitespace glyphs, which
/// store the computed fit-scale; glyphs with a bitmap are resampled by the
/// fit-scale before allocation, so their stored scale is one.
#[derive(Clone, Copy, Debug, PartialEq, Eq, Structural)]
pub struct CachedGlyph {
    pub has_color: bool,
    pub x_offset: Frac,
    pub y_offset: Frac,
    pub bearing_x: Frac,
    pub bearing_y: Frac,
    pub scale: Frac,
    pub sprite: Option<Sprite>,
}

impl CachedGlyph {
    /// Geometry bounds every cached glyph satisfies: all measures share the
    /// fit-scale's denominator and stay small enough for exact pixel
    /// placement arithmetic.
    pub open spec fn wf(self) -> bool {
        &&& self.scale.wf()
        &&& self.x_offset.wf()
        &&& self.y_offset.wf()
        &&& self.bearing_x.wf()
        &&& self.bearing_y.wf()
        &&& self.x_offset.den == self.scale.den
        &&& self.y_offset.den == self.scale.den
        &&& self.bearing_x.den == self.scale.den
        &&& self.bearing_y.den == self.scale.den
        &&& self.scale.den <= GLYPH_DIM_BOUND
        &&& -0x2_0000_0000 <= self.x_offset.num <= 0x2_0000_0000
        &&& -0x2_0000_0000 <= self.y_offset.num <= 0x2_0000_0000
        &&& -0x2_0000_0000 <= self.bearing_x.num <= 0x2_0000_0000
        &&& -0x2_0000_0000 <= self.bearing_y.num <= 0x2_0000_0000
    }
}

/// The glyph cache of one window, bound to that window's texture atlas.
pub struct GlyphCache {
    entries: Vec<(GlyphKey, CachedGlyph)>,
}

impl GlyphCache {
    /// The stored entries, in insertion order.
    pub closed spec fn entries_seq(self) -> Seq<(GlyphKey, CachedGlyph)> {
        self.entries@
    }

    /// Whether the cache holds an entry for `key`.
    pub open spec fn contains_key(self, key: GlyphKey) -> bool {
        exists|i: int| 0 <= i < self.entries_seq().len() && self.entries_seq()[i].0 == key
    }

    /// The entry memoized for `key` (meaningful when `contains_key`).
    pub open spec fn spec_get(self, key: GlyphKey) -> CachedGlyph {
        let i = choose|i: int| 0 <= i < self.entries_seq().len() && self.entries_seq()[i].0 == key;
        self.entries_seq()[i].1
    }

    /// Keys are unique: at most one entry per live key.
    pub open spec fn keys_unique(self) -> bool {
        forall|i: int, j: int|
            0 <= i < self.entries_seq().len() && 0 <= j < self.entries_seq().len() && i != j
                ==> (#[trigger] self.entries_seq()[i]).0 != (#[trigger] self.entries_seq()[j]).0
    }

    /// Well-formedness relative to the bound atlas's generation: keys are
    /// unique and every cached sprite was allocated in that generation.
    pub open spec fn wf_for(self, generation: u64) -> bool {
        &&& self.keys_unique()
        &&& forall|i: int|
            0 <= i < self.entries_seq().len() ==> match (
            #[trigger] self.entries_seq()[i]).1.sprite {
                Some(s) => s.generation == generation,
                None => true,
            }
        &&& forall|i: int|
            0 <= i < self.entries_seq().len() ==> (#[trigger] self.entries_seq()[i]).1.wf()
    }

    /// An empty cache, well formed for any atlas generation.
    pub fn new() -> (r: GlyphCache)
        ensures
            r.entries_seq() =~= Seq::<(GlyphKey, CachedGlyph)>::empty(),
            forall|g: u64| r.wf_for(g),
    {
        GlyphCache { entries: Vec::new() }
    }

    /// Number of memoized glyphs.
    pub fn len(&self) -> (r: usize)
        ensures
            r == self.entries_seq().len(),
    {
        self.entries.len()
    }

    /// Drops every entry.  Must be called whenever the bound atlas is
    /// rebuilt, so that no sprite of the old surface survives.
    pub fn clear(&mut self)
        ensures
            final(self).entries_seq() =~= Seq::<(GlyphKey, CachedGlyph)>::empty(),
            forall|g: u64| final(self).wf_for(g),
    {
        self.entries = Vec::new();
    }

    /// Returns the memoized entry for `key`, if present.
    pub fn lookup(&self, key: &GlyphKey) -> (r: Option<CachedGlyph>)
        requires
            self.keys_unique(),
        ensures
            match r {
                Some(g) => self.contains_key(*key) && g == self.spec_get(*key),
                None => !self.contains_key(*key),
            },
    {
        let n = self.entries.len();
        let mut i: usize = 0;
        while i < n
            invariant
                n == self.entries_seq().len(),
                0 <= i <= n,
                self.keys_unique(),
                forall|j: int| 0 <= j < i ==> (#[trigger] self.entries_seq()[j]).0 != *key,
            decreases n - i,
        {
            if self.entries[i].0.font_idx == key.font_idx && self.entries[i].0.glyph_pos
                == key.glyph_pos && self.entries[i].0.style == key.style {
                return Some(self.entries[i].1);
            }
            i = i + 1;
        }
        None
    }

    /// Memoized lookup with on-miss creation: the idempotent-lookup rule.
    ///
    /// If `key` is already cached, the memoized entry is returned unchanged,
    /// the cache and atlas are untouched, and the supplied rasterization is
    /// ignored (`created` is false): between clears, the rasterizer's result
    /// is consumed at most once per key.  On a miss the entry is built from
    /// `info` and `raster`: the fit-scale is computed, offsets and bearings
    /// are scaled, and a nonempty bitmap is resampled and allocated into
    /// `atlas` in the current generation.  Atlas exhaustion is propagated
    /// unchanged with no entry stored.
    pub fn get_or_create(
        &mut self,
        atlas: &mut TextureAtlas,
        key: GlyphKey,
        info: &ShapedGlyphMetrics,
        raster: &RasterizedGlyph,
        cell_width: u32,
        cell_height: u32,
    ) -> (r: Result<(CachedGlyph, bool), OutOfTextureSpace>)
        requires
            old(self).wf_for(old(atlas).spec_generation()),
            old(atlas).wf(),
            1 <= info.num_cells <= GLYPH_DIM_BOUND,
            info.x_advance <= GLYPH_DIM_BOUND,
            -0x8000 <= info.x_offset <= 0x8000,
            -0x8000 <= info.y_offset <= 0x8000,
            1 <= cell_width <= GLYPH_DIM_BOUND,
            1 <= cell_height <= GLYPH_DIM_BOUND,
            raster.width <= GLYPH_DIM_BOUND,
            raster.height <= GLYPH_DIM_BOUND,
            -0x8000 <= raster.bearing_x <= 0x8000,
            -0x8000 <= raster.bearing_y <= 0x8000,
        ensures
            final(self).wf_for(final(atlas).spec_generation()),
            final(atlas).wf(),
            final(atlas).spec_generation() == old(atlas).spec_generation(),
            final(atlas).spec_size() == old(atlas).spec_size(),
            ({
                let scale = spec_fit_scale(
                    info.x_advance as int,
                    info.num_cells as int,
                    cell_width as int,
                    raster.height as int,
                    cell_height as int,
                );
                let whitespace = raster.width == 0 || raster.height == 0;
                match r {
                    Ok((glyph, created)) => {
                        &&& created == !old(self).contains_key(key)
                        &&& final(self).contains_key(key)
                        &&& glyph == final(self).spec_get(key)
                        &&& glyph.wf()
                        &&& if !created {
                            &&& glyph == old(self).spec_get(key)
                            &&& *final(self) == *old(self)
                            &&& *final(atlas) == *old(atlas)
                        } else {
                            &&& final(self).entries_seq() =~= old(self).entries_seq().push(
                                (key, glyph),
                            )
                            &&& glyph.has_color == raster.has_color
                            &&& glyph.x_offset.num == info.x_offset * scale.num
                            &&& glyph.x_offset.den == scale.den
                            &&& glyph.y_offset.num == info.y_offset * scale.num
                            &&& glyph.y_offset.den == scale.den
                            &&& if whitespace {
                                &&& glyph.sprite is None
                                &&& glyph.scale == scale
                                &&& glyph.bearing_x == (Frac { num: 0, den: scale.den })
                                &&& glyph.bearing_y == (Frac { num: 0, den: scale.den })
                                &&& *final(atlas) == *old(atlas)
                            } else {
                                &&& glyph.sprite is Some
                                &&& glyph.sprite->0.generation == old(atlas).spec_generation()
                                &&& glyph.sprite->0.rect.width == spec_scaled_dim(
                                    raster.width as int,
                                    scale,
                                )
                                &&& glyph.sprite->0.rect.height == spec_scaled_dim(
                                    raster.height as int,
                                    scale,
                                )
                                &&& glyph.scale.is_one()
                                &&& glyph.bearing_x.num == raster.bearing_x * scale.num
                                &&& glyph.bearing_x.den == scale.den
                                &&& glyph.bearing_y.num == raster.bearing_y * scale.num
                                &&& glyph.bearing_y.den == scale.den
                                &&& final(atlas).allocated() =~= old(atlas).allocated().push(
                                    glyph.sprite->0.rect,
                                )
                            }
                        }
                    },
                    Err(e) => {
                        &&& *final(self) == *old(self)
                        &&& *final(atlas) == *old(atlas)
                        &&& !old(self).contains_key(key)
                        &&& !whitespace
                        &&& !old(atlas).spec_can_fit(
                            spec_scaled_dim(raster.width as int, scale) as u32,
                            spec_scaled_dim(raster.height as int, scale) as u32,
                        )
                        // the atlas's signal, propagated unchanged: the minimum
                        // side for the resampled bitmap
                        &&& e.size == vstd::math::max(
                            spec_scaled_dim(raster.width as int, scale),
                            spec_scaled_dim(raster.height as int, scale),
                        )
                    },
                }
            }),
    {
        if let Some(hit) = self.lookup(&key) {
            return Ok((hit, false));
        }
        let scale = compute_fit_scale(
            info.x_advance,
            info.num_cells,
            cell_width,
            raster.height,
            cell_height,
        );
        proof {
            assert(-0x8000_i64 * GLYPH_DIM_BOUND <= info.x_offset * scale.num <= 0x8000_i64
                * GLYPH_DIM_BOUND) by (nonlinear_arith)
                requires
                    -0x8000 <= info.x_offset <= 0x8000,
                    0 < scale.num <= GLYPH_DIM_BOUND,
            ;
            assert(-0x8000_i64 * GLYPH_DIM_BOUND <= info.y_offset * scale.num <= 0x8000_i64
                * GLYPH_DIM_BOUND) by (nonlinear_arith)
                requires
                    -0x8000 <= info.y_offset <= 0x8000,
                    0 < scale.num <= GLYPH_DIM_BOUND,
            ;
            assert(-0x8000_i64 * GLYPH_DIM_BOUND <= raster.bearing_x * scale.num <= 0x8000_i64
                * GLYPH_DIM_BOUND) by (nonlinear_arith)
                requires
                    -0x8000 <= raster.bearing_x <= 0x8000,
                    0 < scale.num <= GLYPH_DIM_BOUND,
            ;
            assert(-0x8000_i64 * GLYPH_DIM_BOUND <= raster.bearing_y * scale.num <= 0x8000_i64
                * GLYPH_DIM_BOUND) by (nonlinear_arith)
                requires
                    -0x8000 <= raster.bearing_y <= 0x8000,
                    0 < scale.num <= GLYPH_DIM_BOUND,
            ;
        }
        let x_offset = scale_measure(info.x_offset as i64, &scale);
        let y_offset = scale_measure(info.y_offset as i64, &scale);
        let glyph: CachedGlyph = if raster.width == 0 || raster.height == 0 {
            // a whitespace glyph: no bitmap, the fit-scale is kept as is
            CachedGlyph {
                has_color: raster.has_color,
                x_offset,
                y_offset,
                bearing_x: Frac { num: 0, den: scale.den },
                bearing_y: Frac { num: 0, den: scale.den },
                scale,
                sprite: None,
            }
        } else {
            let bearing_x = scale_measure(raster.bearing_x as i64, &scale);
            let bearing_y = scale_measure(raster.bearing_y as i64, &scale);
            let scaled_w = scale_dimension(raster.width, &scale);
            let scaled_h = scale_dimension(raster.height, &scale);
            let sprite = match atlas.allocate(scaled_w, scaled_h) {
                Ok(s) => s,
                Err(e) => {
                    return Err(e);
                },
            };
            // the resampled bitmap already encodes the fit-scale
            CachedGlyph {
                has_color: raster.has_color,
                x_offset,
                y_offset,
                bearing_x,
                bearing_y,
                scale: Frac { num: scale.den, den: scale.den },
                sprite: Some(sprite),
            }
        };
        proof {
            assert(!old(self).contains_key(key));
            assert(glyph.wf());
        }
        self.entries.push((key, glyph));
        proof {
            let n = self.entries@.len() - 1;
            assert(self.entries@ =~= old(self).entries@.push((key, glyph)));
            assert(self.entries@[n as int].0 == key);
            assert(self.contains_key(key));
            assert forall|i: int, j: int|
                0 <= i < self.entries@.len() && 0 <= j < self.entries@.len() && i
                    != j implies (#[trigger] self.entries@[i]).0 != (
            #[trigger] self.entries@[j]).0 by {
                if i < n && j < n {
                    assert(old(self).entries@[i] == self.entries@[i]);
                    assert(old(self).entries@[j] == self.entries@[j]);
                } else if i == n as int {
                    assert(old(self).entries@[j] == self.entries@[j]);
                    assert(self.entries@[j].0 != key);
                } else {
                    assert(old(self).entries@[i] == self.entries@[i]);
                    assert(self.entries@[i].0 != key);
                }
            }
            let w = choose|i: int|
                0 <= i < self.entries_seq().len() && self.entries_seq()[i].0 == key;
            lemma_lookup_unique(*self, key, n as int, w);
            assert(self.spec_get(key) == glyph);
        }
        Ok((glyph, true))
    }
}

/// A cache that extends another entry for entry keeps every key.
pub proof fn lemma_extension_keeps_keys(pre: GlyphCache, post: GlyphCache, key: GlyphKey)
    requires
        pre.entries_seq().len() <= post.entries_seq().len(),
        forall|i: int|
            0 <= i < pre.entries_seq().len() ==> #[trigger] post.entries_seq()[i]
                == pre.entries_seq()[i],
        pre.contains_key(key),
    ensures
        post.contains_key(key),
{
    let i = choose|i: int|
        0 <= i < pre.entries_seq().len() && pre.entries_seq()[i].0 == key;
    assert(post.entries_seq()[i].0 == key);
}

/// A cache that grew by one appended entry holds no key beyond the old
/// keys and the appended one.
pub proof fn lemma_extension_key_source(pre: GlyphCache, post: GlyphCache, added: GlyphKey, key: GlyphKey)
    requires
        post.entries_seq().len() == pre.entries_seq().len() + 1,
        forall|i: int|
            0 <= i < pre.entries_seq().len() ==> #[trigger] post.entries_seq()[i]
                == pre.entries_seq()[i],
        post.entries_seq().last().0 == added,
        post.contains_key(key),
    ensures
        pre.contains_key(key) || key == added,
{
    let i = choose|i: int|
        0 <= i < post.entries_seq().len() && post.entries_seq()[i].0 == key;
    if i < pre.entries_seq().len() {
        assert(pre.entries_seq()[i].0 == key);
    }
}

/// A cache that extends another keeps each old key's entry unchanged.
pub proof fn lemma_extension_keeps_get(pre: GlyphCache, post: GlyphCache, key: GlyphKey)
    requires
        pre.entries_seq().len() <= post.entries_seq().len(),
        forall|i: int|
            0 <= i < pre.entries_seq().len() ==> #[trigger] post.entries_seq()[i]
                == pre.entries_seq()[i],
        pre.keys_unique(),
        post.keys_unique(),
        pre.contains_key(key),
    ensures
        post.contains_key(key),
        post.spec_get(key) == pre.spec_get(key),
{
    let i = choose|i: int|
        0 <= i < pre.entries_seq().len() && pre.entries_seq()[i].0 == key;
    assert(post.entries_seq()[i].0 == key);
    let j = choose|j: int|
        0 <= j < post.entries_seq().len() && post.entries_seq()[j].0 == key;
    assert(j == i);
}

/// The post-invalidation law: in a cache well formed for the atlas's
/// current generation, every cached sprite carries that generation, so no
/// lookup can hand back a sprite of a surface that a rebuild replaced.
pub proof fn lemma_no_stale_sprites(c: GlyphCache, generation: u64, key: GlyphKey)
    requires
        c.wf_for(generation),
        c.contains_key(key),
        c.spec_get(key).sprite is Some,
    ensures
        c.spec_get(key).sprite->0.generation == generation,
{
}

/// The idempotent-lookup law, on the cache model: one key maps to exactly
/// one entry, so repeated lookups between clears agree.
pub proof fn lemma_lookup_unique(c: GlyphCache, key: GlyphKey, i: int, j: int)
    requires
        c.keys_unique(),
        0 <= i < c.entries_seq().len(),
        0 <= j < c.entries_seq().len(),
        c.entries_seq()[i].0 == key,
        c.entries_seq()[j].0 == key,
    ensures
        i == j,
        c.entries_seq()[i].1 == c.spec_get(key),
{
}

} // verus!
