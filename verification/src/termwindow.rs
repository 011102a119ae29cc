//! The window controller: one terminal window's state, and the single
//! dispatch routine consuming the OS callback events.
//!
//! The OS layer reaches the controller through exactly one tagged event
//! type — created, resize, key, mouse, paint, can-close — and a response
//! tells the embedding what external work remains: bytes to write to the
//! process transport, tabs to resize or spawn, a frame's draw primitives
//! to submit, a pointer icon to show.

use crate::atlas::TextureAtlas;
use crate::color::ColorPalette;
use crate::frac::Frac;
use crate::frame::{paint, FrameResult, TermSnapshot};
use crate::glyphcache::GlyphCache;
use crate::input::{
    cursor_for_highlight, key_event_dispatch, mouse_event_invalidates, perform_key_assignment,
    translate_mouse_event, AssignmentAction, KeyDispatch, KeyEvent, KeyMap, MouseCursorIcon,
    TermMouseEvent, WindowMouseEvent,
};
use crate::metrics::{FontMetrics, GLYPH_DIM_BOUND, METRIC_BOUND};
use crate::renderer::{RasterSource, RenderMetrics};
use crate::window::{
    scaling_changed, Dimensions, ScalingOutcome, SessionModel, WindowGeometry,
};
use vstd::prelude::*;

verus! {

/// One terminal window: its id in the session, its geometry and scale
/// state, the glyph cache and texture atlas pair it owns, its key-binding
/// table, and whether the OS window handle has been attached yet.
pub struct TermWindow {
    pub mux_window_id: u64,
    pub geometry: WindowGeometry,
    pub cache: GlyphCache,
    pub atlas: TextureAtlas,
    pub keys: KeyMap,
    pub created: bool,
}

impl TermWindow {
    /// The window's state invariant: the geometry is within the render
    /// limits, and every cached sprite belongs to the current atlas
    /// generation.
    pub open spec fn wf(self) -> bool {
        &&& 1 <= self.geometry.cell_width <= GLYPH_DIM_BOUND
        &&& 1 <= self.geometry.cell_height <= GLYPH_DIM_BOUND
        &&& self.geometry.dimensions.pixel_width <= 0x100_0000
        &&& self.geometry.dimensions.pixel_height <= 0x100_0000
        &&& self.geometry.descender.wf()
        &&& -METRIC_BOUND <= self.geometry.descender.num <= 0
        &&& self.geometry.descender.den <= METRIC_BOUND
        &&& 0 <= self.geometry.dec_rows.descender_row <= self.geometry.cell_height
        &&& 0 <= self.geometry.dec_rows.descender_plus_one <= self.geometry.cell_height
        &&& 0 <= self.geometry.dec_rows.descender_plus_two <= self.geometry.cell_height
        &&& 0 <= self.geometry.dec_rows.strike_row <= self.geometry.cell_height
        &&& self.geometry.font_scale.wf()
        &&& self.cache.wf_for(self.atlas.spec_generation())
        &&& self.atlas.wf()
    }

    /// The render geometry a paint pass works in.
    pub open spec fn spec_render_metrics(self) -> RenderMetrics {
        RenderMetrics {
            cell_width: self.geometry.cell_width,
            cell_height: self.geometry.cell_height,
            dec_rows: self.geometry.dec_rows,
            pixel_width: self.geometry.dimensions.pixel_width,
            pixel_height: self.geometry.dimensions.pixel_height,
        }
    }
}

/// The callback surface the OS layer drives, as one tagged event.  Events
/// carry the external data their handling consumes: the resize brings the
/// rescaled font metrics, the paint brings the terminal snapshot with its
/// shaping and rasterization results, the mouse brings the hover state.
pub enum WindowEvent {
    Created,
    Resize { dimensions: Dimensions, font_scale: Frac, metrics: FontMetrics },
    Key { event: KeyEvent, has_tab: bool },
    Mouse { mouse: WindowMouseEvent, has_highlight: bool },
    Paint { snapshot: TermSnapshot, palette: ColorPalette, rasters: RasterSource },
    CanClose,
}

/// What an event left for the embedding to do.
pub enum EventResponse {
    /// The window handle is attached; nothing else.
    Created,
    /// Resize every tab of the window to the new grid; when `rebuilt`, the
    /// atlas and glyph cache were replaced.
    Resized(ScalingOutcome),
    /// A key event: whether it was handled, and the work it decided.
    KeyDispatched { handled: bool, dispatch: KeyDispatch, action: Option<AssignmentAction> },
    /// Forward the translated mouse event to the terminal (nothing for an
    /// unmapped event), repaint if asked, and show the given pointer icon.
    MouseDispatched { event: Option<TermMouseEvent>, invalidate: bool, icon: MouseCursorIcon },
    /// Submit the frame's primitives; when `completed`, tell the terminal
    /// model to mark the processed lines clean.
    Painted(FrameResult),
    /// Whether the window may close now (its last tab is gone).
    CanClose(bool),
}

impl TermWindow {
    /// The single dispatch routine consuming the OS callbacks.
    ///
    /// Creation attaches the handle; a resize applies the scaling rules
    /// and, when the dpi or font scale changed, rebuilds the atlas and
    /// drops the glyph cache; key and mouse events run the input mapper
    /// (key assignments update the session in place); a paint runs the
    /// damage-tracked frame with its bounded exhaustion recovery; a close
    /// request applies the close-sequencing rule.
    pub fn dispatch_event(&mut self, session: &mut SessionModel, event: WindowEvent) -> (r:
        EventResponse)
        requires
            old(self).wf(),
            old(session).wf(),
            match event {
                WindowEvent::Resize { dimensions, font_scale, metrics } => {
                    &&& metrics.wf()
                    &&& font_scale.wf()
                    &&& old(self).atlas.spec_generation() < u64::MAX
                    &&& dimensions.pixel_width <= 0x100_0000
                    &&& dimensions.pixel_height <= 0x100_0000
                    &&& crate::metrics::spec_ceil(metrics.cell_width) <= GLYPH_DIM_BOUND
                    &&& crate::metrics::spec_ceil(metrics.cell_height) <= GLYPH_DIM_BOUND
                },
                WindowEvent::Paint { snapshot, palette, rasters } => {
                    &&& palette.wf()
                    &&& rasters.keys_unique()
                    &&& old(self).atlas.spec_generation() < u64::MAX
                    &&& snapshot.phys_rows * old(self).geometry.cell_height <= old(
                        self,
                    ).geometry.dimensions.pixel_height
                    &&& snapshot.phys_cols * old(self).geometry.cell_width <= old(
                        self,
                    ).geometry.dimensions.pixel_width
                    &&& snapshot.phys_cols <= 0x100_0000
                    &&& snapshot.phys_rows <= 0x100_0000
                },
                _ => true,
            },
        ensures
            final(self).wf(),
            final(session).wf(),
            final(self).mux_window_id == old(self).mux_window_id,
            match event {
                WindowEvent::Created => r == EventResponse::Created && final(self).created
                    && *final(session) == *old(session),
                WindowEvent::Resize { dimensions, font_scale, metrics } => {
                    let pre = *old(self);
                    let post = *final(self);
                    &&& post.geometry.dimensions == dimensions
                    &&& *final(session) == *old(session)
                    &&& match r {
                        EventResponse::Resized(out) => {
                            &&& out.rebuilt == !(dimensions.dpi == pre.geometry.dimensions.dpi
                                && crate::frac::frac_eq(font_scale, pre.geometry.font_scale))
                            &&& out.resize == crate::window::spec_resize_pty_size(
                                dimensions,
                                post.geometry.cell_width as int,
                                post.geometry.cell_height as int,
                            )
                            &&& (out.rebuilt ==> post.geometry.cell_width
                                == crate::metrics::spec_ceil(metrics.cell_width)
                                && post.geometry.cell_height == crate::metrics::spec_ceil(
                                metrics.cell_height,
                            ) && post.atlas.spec_generation() == pre.atlas.spec_generation() + 1
                                && post.cache.entries_seq().len() == 0)
                            &&& (!out.rebuilt ==> post.atlas.spec_generation()
                                == pre.atlas.spec_generation() && post.geometry.cell_width
                                == pre.geometry.cell_width && post.geometry.cell_height
                                == pre.geometry.cell_height && post.cache == pre.cache)
                        },
                        _ => false,
                    }
                },
                WindowEvent::CanClose => {
                    let pre_s = *old(session);
                    let post_s = *final(session);
                    let id = old(self).mux_window_id;
                    &&& match r {
                        EventResponse::CanClose(may_close) => match pre_s.spec_active_tab(id) {
                            None => may_close == true && post_s == pre_s,
                            Some(tab) => {
                                let w = pre_s.window_index(id);
                                let old_tabs = pre_s.windows@[w].tabs@;
                                &&& post_s.windows@[w].tabs@ =~= old_tabs.remove(
                                    pre_s.windows@[w].active as int,
                                )
                                &&& may_close == (post_s.windows@[w].tabs@.len() == 0)
                            },
                        },
                        _ => false,
                    }
                    &&& *final(self) == *old(self)
                },
                WindowEvent::Key { event: key, has_tab } => {
                    &&& match r {
                        EventResponse::KeyDispatched { handled, dispatch, action } => {
                            &&& ((!key.key_is_down || !has_tab) ==> dispatch is Ignored
                                && handled == false && action is None && *final(session) == *old(
                                session,
                            ))
                            &&& (key.key_is_down && has_tab ==> {
                                let mods = crate::input::TermModifiers {
                                    shift: key.modifiers.shift,
                                    alt: key.modifiers.alt,
                                    ctrl: key.modifiers.ctrl,
                                    super_key: key.modifiers.super_key,
                                };
                                let table = old(self).keys.entries@;
                                match key.key {
                                    crate::input::WindowKeyCode::Composed(text) => dispatch
                                        == KeyDispatch::WriteToPty(text) && handled == true
                                        && action is None && *final(session) == *old(session),
                                    _ => match crate::input::spec_translate_key(key.key) {
                                        Some(kc) => {
                                            if old(self).keys.has_binding(kc, mods) {
                                                &&& dispatch is Assignment
                                                &&& dispatch->Assignment_0 < table.len()
                                                &&& table[dispatch->Assignment_0 as int].0 == kc
                                                &&& table[dispatch->Assignment_0 as int].1 == mods
                                                &&& handled == true
                                                &&& action is Some
                                                &&& crate::input::spec_assignment_outcome(
                                                    *old(session),
                                                    *final(session),
                                                    old(self).geometry,
                                                    old(self).mux_window_id,
                                                    table[dispatch->Assignment_0 as int].2,
                                                    action->0,
                                                )
                                            } else {
                                                dispatch == KeyDispatch::ForwardToTab(kc, mods)
                                                    && handled == true && action is None
                                                    && *final(session) == *old(session)
                                            }
                                        },
                                        None => dispatch is Ignored && handled == false
                                            && action is None && *final(session) == *old(session),
                                    },
                                }
                            })
                        },
                        _ => false,
                    }
                    &&& *final(self) == *old(self)
                },
                WindowEvent::Mouse { mouse, has_highlight } => {
                    &&& r == (EventResponse::MouseDispatched {
                        event: crate::input::spec_translate_mouse(
                            mouse,
                            old(self).geometry.cell_width as int,
                            old(self).geometry.cell_height as int,
                        ),
                        invalidate: !(mouse.kind is Move),
                        icon: if has_highlight {
                            MouseCursorIcon::Hand
                        } else {
                            MouseCursorIcon::Text
                        },
                    })
                    &&& *final(self) == *old(self)
                    &&& *final(session) == *old(session)
                },
                WindowEvent::Paint { snapshot, palette, rasters } => {
                    &&& *final(session) == *old(session)
                    &&& match r {
                        EventResponse::Painted(result) => {
                            let m = old(self).spec_render_metrics();
                            let pre_atlas = old(self).atlas;
                            let post_atlas = final(self).atlas;
                            &&& (result.rebuilt is None ==> post_atlas.spec_generation()
                                == pre_atlas.spec_generation() && post_atlas.spec_size()
                                == pre_atlas.spec_size())
                            &&& (result.rebuilt is Some ==> post_atlas.spec_generation()
                                == pre_atlas.spec_generation() + 1 && post_atlas.spec_size()
                                == result.rebuilt->0 && result.rebuilt->0
                                >= pre_atlas.spec_size())
                            &&& (result.completed ==> result.ops@.len() > 0 && result.ops@.last()
                                == crate::frame::spec_bottom_margin_clear(
                                m,
                                snapshot.phys_rows as int,
                                palette,
                            ) && crate::frame::ops_damage_confined(
                                result.ops@,
                                snapshot.lines@,
                                result.rebuilt is Some,
                                m,
                            ))
                            &&& (!result.completed ==> result.ops@.len() == 0
                                && result.rebuilt is Some)
                        },
                        _ => false,
                    }
                    &&& final(self).geometry == old(self).geometry
                },
            },
    {
        match event {
            WindowEvent::Created => {
                self.created = true;
                EventResponse::Created
            },
            WindowEvent::Resize { dimensions, font_scale, metrics } => {
                let out = scaling_changed(&mut self.geometry, dimensions, font_scale, &metrics);
                if out.rebuilt {
                    // the cell metrics changed: every cached sprite is stale
                    let side = self.atlas.size();
                    self.atlas.rebuild(side);
                    self.cache.clear();
                }
                EventResponse::Resized(out)
            },
            WindowEvent::Key { event, has_tab } => {
                let (dispatch, handled) = key_event_dispatch(event, &self.keys, has_tab);
                let action = match dispatch {
                    KeyDispatch::Assignment(i) => {
                        if i < self.keys.entries.len() {
                            Some(
                                perform_key_assignment(
                                    session,
                                    &self.geometry,
                                    self.mux_window_id,
                                    &self.keys.entries[i].2,
                                ),
                            )
                        } else {
                            None
                        }
                    },
                    _ => None,
                };
                EventResponse::KeyDispatched { handled, dispatch, action }
            },
            WindowEvent::Mouse { mouse, has_highlight } => {
                let translated = translate_mouse_event(
                    &mouse,
                    self.geometry.cell_width,
                    self.geometry.cell_height,
                );
                EventResponse::MouseDispatched {
                    event: translated,
                    invalidate: mouse_event_invalidates(mouse.kind),
                    icon: cursor_for_highlight(has_highlight),
                }
            },
            WindowEvent::Paint { snapshot, palette, rasters } => {
                let metrics = RenderMetrics {
                    cell_width: self.geometry.cell_width,
                    cell_height: self.geometry.cell_height,
                    dec_rows: self.geometry.dec_rows,
                    pixel_width: self.geometry.dimensions.pixel_width,
                    pixel_height: self.geometry.dimensions.pixel_height,
                };
                let result = paint(
                    &metrics,
                    &snapshot,
                    &palette,
                    &mut self.cache,
                    &mut self.atlas,
                    &rasters,
                );
                EventResponse::Painted(result)
            },
            WindowEvent::CanClose => {
                EventResponse::CanClose(session.can_close(self.mux_window_id))
            },
        }
    }
}

} // verus!
