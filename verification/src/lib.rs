//! Verified core of a terminal emulator's on-screen rendering engine.
//!
//! The library models the logic that turns a terminal grid into draw
//! primitives: a texture atlas that packs glyph bitmaps into disjoint
//! rectangles, a glyph cache memoizing rasterized glyphs, the damage-tracked
//! line renderer, the window controller's lifecycle and scaling rules, and
//! the input mapper.  Rasterization, shaping, and the OS surface itself are
//! external capabilities; their results enter the library as plain values.

pub mod atlas;
pub mod color;
pub mod frac;
pub mod frame;
pub mod glyphcache;
pub mod input;
pub mod line;
pub mod lineedit;
pub mod metrics;
pub mod pty;
pub mod renderer;
pub mod termwindow;
pub mod window;
