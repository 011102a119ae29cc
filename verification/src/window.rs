//! Window controller and session model: tab lifecycle, the close
//! sequencing rule, scaling changes, title computation, the repaint timer
//! decision, and invalidate coalescing.
//!
//! The session (windows and their tabs) is modeled as plain values; the
//! process transport that actually spawns tabs, the font system that
//! delivers metrics, and the OS window are external, so their results
//! enter as arguments and the decisions leave as plain values.

use crate::frac::{frac_eq, Frac};
use crate::metrics::{ceil_frac, compute_decoration_rows, spec_ceil, spec_descender_row,
    DecorationRows, FontMetrics};
use vstd::prelude::*;

verus! {

/// Pixel dimensions and dots-per-inch of a window surface.
#[derive(Clone, Copy, Debug, PartialEq, Eq, Structural)]
pub struct Dimensions {
    pub pixel_width: u32,
    pub pixel_height: u32,
    pub dpi: u32,
}

/// The terminal size handed to the process transport.
#[derive(Clone, Copy, Debug, PartialEq, Eq, Structural)]
pub struct PtySize {
    pub rows: u16,
    pub cols: u16,
    pub pixel_width: u16,
    pub pixel_height: u16,
}

/// One window of the session and the tabs attached to it.
pub struct WindowEntry {
    pub window_id: u64,
    pub tabs: Vec<u64>,
    pub active: usize,
}

/// The session: every live window with its tabs, the spawnable domains,
/// and which domain each tab belongs to.
pub struct SessionModel {
    pub windows: Vec<WindowEntry>,
    pub domains: Vec<u64>,
    pub default_domain: u64,
    pub tab_domains: Vec<(u64, u64)>,
}

/// Errors surfaced by tab and window operations.
#[derive(Clone, Copy, Debug, PartialEq, Eq, Structural)]
pub enum SessionError {
    NoSuchWindow,
    NoMoreTabs,
    UnresolvableDomain,
}

/// Where a newly spawned tab's process should run.
#[derive(Clone, Copy, Debug, PartialEq, Eq, Structural)]
pub enum SpawnTabDomain {
    DefaultDomain,
    CurrentTabDomain,
    Domain(u64),
}

impl SessionModel {
    /// Window ids are unique, and every window's active index is in range
    /// whenever it has tabs.
    pub open spec fn wf(self) -> bool {
        &&& forall|i: int, j: int|
            0 <= i < self.windows@.len() && 0 <= j < self.windows@.len() && i != j
                ==> (#[trigger] self.windows@[i]).window_id != (
            #[trigger] self.windows@[j]).window_id
        &&& forall|i: int|
            0 <= i < self.windows@.len() ==> ((#[trigger] self.windows@[i]).tabs@.len() > 0
                ==> self.windows@[i].active < self.windows@[i].tabs@.len())
        &&& forall|i: int|
            0 <= i < self.windows@.len() ==> (#[trigger] self.windows@[i]).tabs@.len()
                <= 0x1000_0000
        &&& self.tab_domains_unique()
    }

    /// Whether a window with this id exists.
    pub open spec fn has_window(self, window_id: u64) -> bool {
        exists|i: int|
            0 <= i < self.windows@.len() && (#[trigger] self.windows@[i]).window_id == window_id
    }

    /// Index of the window with this id.
    pub open spec fn window_index(self, window_id: u64) -> int {
        choose|i: int|
            0 <= i < self.windows@.len() && (#[trigger] self.windows@[i]).window_id == window_id
    }

    /// Finds the position of a window by id.
    fn find_window(&self, window_id: u64) -> (r: Option<usize>)
        requires
            self.wf(),
        ensures
            match r {
                Some(i) => self.has_window(window_id) && i == self.window_index(window_id)
                    && i < self.windows@.len() && self.windows@[i as int].window_id == window_id,
                None => !self.has_window(window_id),
            },
    {
        let n = self.windows.len();
        let mut i: usize = 0;
        while i < n
            invariant
                self.wf(),
                n == self.windows@.len(),
                0 <= i <= n,
                forall|j: int| 0 <= j < i ==> (#[trigger] self.windows@[j]).window_id != window_id,
            decreases n - i,
        {
            if self.windows[i].window_id == window_id {
                proof {
                    let w = self.window_index(window_id);
                    assert(self.windows@[w].window_id == window_id);
                    assert(w == i);
                }
                return Some(i);
            }
            i = i + 1;
        }
        None
    }

    /// The id of the active tab of a window, if the window exists and has
    /// tabs.
    pub open spec fn spec_active_tab(self, window_id: u64) -> Option<u64> {
        if self.has_window(window_id) {
            let w = self.windows@[self.window_index(window_id)];
            if w.tabs@.len() > 0 {
                Some(w.tabs@[w.active as int])
            } else {
                None
            }
        } else {
            None
        }
    }

    /// Returns the active tab of a window.
    pub fn get_active_tab_for_window(&self, window_id: u64) -> (r: Option<u64>)
        requires
            self.wf(),
        ensures
            r == self.spec_active_tab(window_id),
    {
        match self.find_window(window_id) {
            None => None,
            Some(i) => {
                let w = &self.windows[i];
                if w.tabs.len() > 0 {
                    Some(w.tabs[w.active])
                } else {
                    None
                }
            },
        }
    }

    /// The close sequencing rule.  Closing a window first closes its
    /// active tab: the tab is removed from the window, and the window may
    /// close only if no tab remains.  A window with no tabs (or an unknown
    /// window, a degenerate state) may close at once.
    ///
    /// Called repeatedly, this closes one tab at a time: with two tabs the
    /// first call returns false and leaves one, and the call after that
    /// returns true.
    pub fn can_close(&mut self, window_id: u64) -> (r: bool)
        requires
            old(self).wf(),
        ensures
            final(self).wf(),
            match old(self).spec_active_tab(window_id) {
                None => r == true && *final(self) == *old(self),
                Some(tab) => {
                    let w = old(self).window_index(window_id);
                    let old_tabs = old(self).windows@[w].tabs@;
                    let new_tabs = final(self).windows@[w].tabs@;
                    &&& new_tabs =~= old_tabs.remove(old(self).windows@[w].active as int)
                    &&& r == (new_tabs.len() == 0)
                    &&& final(self).windows@.len() == old(self).windows@.len()
                    &&& forall|j: int|
                        0 <= j < old(self).windows@.len() && j != w
                            ==> final(self).windows@[j] == old(self).windows@[j]
                },
            },
    {
        let i = match self.find_window(window_id) {
            None => {
                return true;
            },
            Some(i) => i,
        };
        if self.windows[i].tabs.len() == 0 {
            return true;
        }
        let ghost pre = self.windows@;
        let active = self.windows[i].active;
        let mut w = self.windows.remove(i);
        w.tabs.remove(active);
        if w.active >= w.tabs.len() && w.tabs.len() > 0 {
            w.active = w.tabs.len() - 1;
        }
        let empty = w.tabs.len() == 0;
        let ghost wv = w;
        self.windows.insert(i, w);
        proof {
            assert(self.windows@ =~= pre.update(i as int, wv));
        }
        empty
    }

    /// Closes the window's active tab, keeping the window itself open
    /// even when no tab remains: the same removal as the close-sequencing
    /// rule, for the explicit close-tab action.
    pub fn close_current_tab(&mut self, window_id: u64)
        requires
            old(self).wf(),
        ensures
            final(self).wf(),
            match old(self).spec_active_tab(window_id) {
                None => *final(self) == *old(self),
                Some(tab) => {
                    let w = old(self).window_index(window_id);
                    &&& final(self).windows@[w].tabs@ =~= old(self).windows@[w].tabs@.remove(
                        old(self).windows@[w].active as int,
                    )
                    &&& final(self).windows@.len() == old(self).windows@.len()
                },
            },
    {
        let _ = self.can_close(window_id);
    }

    /// Activates the tab at `tab_idx` in a window; an index past the end
    /// is ignored.  Fails only when the window does not exist.
    pub fn activate_tab(&mut self, window_id: u64, tab_idx: usize) -> (r: Result<
        (),
        SessionError,
    >)
        requires
            old(self).wf(),
        ensures
            final(self).wf(),
            !old(self).has_window(window_id) ==> r == Err::<(), SessionError>(
                SessionError::NoSuchWindow,
            ) && *final(self) == *old(self),
            old(self).has_window(window_id) ==> {
                let w = old(self).window_index(window_id);
                &&& r is Ok
                &&& (tab_idx < old(self).windows@[w].tabs@.len() ==> final(self).windows@[w].active
                    == tab_idx && final(self).windows@[w].tabs@ == old(self).windows@[w].tabs@)
                &&& (tab_idx >= old(self).windows@[w].tabs@.len() ==> *final(self) == *old(self))
                &&& final(self).windows@.len() == old(self).windows@.len()
                &&& forall|j: int|
                    0 <= j < old(self).windows@.len() && j != w ==> final(self).windows@[j] == old(
                        self,
                    ).windows@[j]
            },
    {
        let i = match self.find_window(window_id) {
            None => {
                return Err(SessionError::NoSuchWindow);
            },
            Some(i) => i,
        };
        let max = self.windows[i].tabs.len();
        if tab_idx < max {
            let ghost pre = self.windows@;
            let mut w = self.windows.remove(i);
            w.active = tab_idx;
            let ghost wv = w;
            self.windows.insert(i, w);
            proof {
                assert(self.windows@ =~= pre.update(i as int, wv));
            }
        }
        Ok(())
    }

    /// Activates a tab relative to the current one: the delta wraps around
    /// the tab strip in either direction.  Fails when the window does not
    /// exist or has no tabs.
    pub fn activate_tab_relative(&mut self, window_id: u64, delta: i64) -> (r: Result<
        (),
        SessionError,
    >)
        requires
            old(self).wf(),
        ensures
            final(self).wf(),
            !old(self).has_window(window_id) ==> r == Err::<(), SessionError>(
                SessionError::NoSuchWindow,
            ) && *final(self) == *old(self),
            old(self).has_window(window_id) && old(self).windows@[old(self).window_index(
                window_id,
            )].tabs@.len() == 0 ==> r == Err::<(), SessionError>(SessionError::NoMoreTabs)
                && *final(self) == *old(self),
            old(self).has_window(window_id) && old(self).windows@[old(self).window_index(
                window_id,
            )].tabs@.len() > 0 ==> {
                let w = old(self).window_index(window_id);
                let max = old(self).windows@[w].tabs@.len() as int;
                let active = old(self).windows@[w].active as int;
                let wanted = active + delta;
                let wrapped = if wanted < 0 {
                    max + wanted
                } else {
                    wanted
                };
                &&& r is Ok
                &&& (wrapped >= 0 ==> final(self).windows@[w].active == wrapped % max
                    && final(self).windows@[w].tabs@ == old(self).windows@[w].tabs@)
                // a delta reaching past a full wrap is ignored
                &&& (wrapped < 0 ==> *final(self) == *old(self))
            },
    {
        let i = match self.find_window(window_id) {
            None => {
                return Err(SessionError::NoSuchWindow);
            },
            Some(i) => i,
        };
        let max = self.windows[i].tabs.len();
        if max == 0 {
            return Err(SessionError::NoMoreTabs);
        }
        let active: i128 = self.windows[i].active as i128;
        let tab: i128 = active + (delta as i128);
        let tab: i128 = if tab < 0 {
            (max as i128) + tab
        } else {
            tab
        };
        if tab < 0 {
            return Ok(());
        }
        let max_i: i128 = max as i128;
        let idx: i128 = tab % max_i;
        proof {
            assert(0 <= idx < max_i) by (nonlinear_arith)
                requires
                    max_i > 0,
                    tab >= 0,
                    idx == tab % max_i,
            ;
        }
        let r = self.activate_tab(window_id, idx as usize);
        proof {
            assert(r is Ok);
        }
        r
    }

    /// What the spawn rule resolves a domain request to: the configured
    /// default, the domain of the window's current tab, or an explicit
    /// domain id; an unknown id, or a current tab whose domain is not
    /// registered, is unresolvable.
    pub open spec fn spec_resolve_spawn_domain(self, window_id: u64, domain: SpawnTabDomain)
        -> Result<u64, SessionError> {
        match domain {
            SpawnTabDomain::DefaultDomain => Ok(self.default_domain),
            SpawnTabDomain::CurrentTabDomain => match self.spec_active_tab(window_id) {
                None => Err(SessionError::UnresolvableDomain),
                Some(tab) => match self.spec_tab_domain(tab) {
                    Some(d) => Ok(d),
                    None => Err(SessionError::UnresolvableDomain),
                },
            },
            SpawnTabDomain::Domain(id) => if self.spec_has_domain(id) {
                Ok(id)
            } else {
                Err(SessionError::UnresolvableDomain)
            },
        }
    }

    /// Resolves the domain a new tab should spawn in.
    pub fn resolve_spawn_domain(&self, window_id: u64, domain: &SpawnTabDomain) -> (r: Result<
        u64,
        SessionError,
    >)
        requires
            self.wf(),
        ensures
            r == self.spec_resolve_spawn_domain(window_id, *domain),
    {
        match domain {
            SpawnTabDomain::DefaultDomain => Ok(self.default_domain),
            SpawnTabDomain::CurrentTabDomain => {
                match self.get_active_tab_for_window(window_id) {
                    None => Err(SessionError::UnresolvableDomain),
                    Some(tab) => match self.tab_domain(tab) {
                        Some(d) => Ok(d),
                        None => Err(SessionError::UnresolvableDomain),
                    },
                }
            },
            SpawnTabDomain::Domain(id) => {
                if self.has_domain(*id) {
                    Ok(*id)
                } else {
                    Err(SessionError::UnresolvableDomain)
                }
            },
        }
    }

    /// Whether a domain id is registered.
    pub open spec fn spec_has_domain(self, id: u64) -> bool {
        exists|i: int| 0 <= i < self.domains@.len() && self.domains@[i] == id
    }

    fn has_domain(&self, id: u64) -> (r: bool)
        ensures
            r == self.spec_has_domain(id),
    {
        let n = self.domains.len();
        let mut i: usize = 0;
        while i < n
            invariant
                n == self.domains@.len(),
                0 <= i <= n,
                forall|j: int| 0 <= j < i ==> self.domains@[j] != id,
            decreases n - i,
        {
            if self.domains[i] == id {
                return true;
            }
            i = i + 1;
        }
        false
    }

    /// The domain a tab was spawned in, if recorded.
    pub open spec fn spec_tab_domain(self, tab: u64) -> Option<u64> {
        if exists|i: int| 0 <= i < self.tab_domains@.len() && (#[trigger] self.tab_domains@[i]).0
            == tab {
            let i = choose|i: int|
                0 <= i < self.tab_domains@.len() && (#[trigger] self.tab_domains@[i]).0 == tab;
            Some(self.tab_domains@[i].1)
        } else {
            None
        }
    }

    /// Tab ids are recorded at most once.
    pub open spec fn tab_domains_unique(self) -> bool {
        forall|i: int, j: int|
            0 <= i < self.tab_domains@.len() && 0 <= j < self.tab_domains@.len() && i != j
                ==> (#[trigger] self.tab_domains@[i]).0 != (#[trigger] self.tab_domains@[j]).0
    }

    fn tab_domain(&self, tab: u64) -> (r: Option<u64>)
        ensures
            r is Some ==> self.spec_tab_domain(tab) is Some,
            r is None ==> self.spec_tab_domain(tab) is None,
            self.tab_domains_unique() ==> r == self.spec_tab_domain(tab),
    {
        let n = self.tab_domains.len();
        let mut i: usize = 0;
        while i < n
            invariant
                n == self.tab_domains@.len(),
                0 <= i <= n,
                forall|j: int| 0 <= j < i ==> (#[trigger] self.tab_domains@[j]).0 != tab,
            decreases n - i,
        {
            if self.tab_domains[i].0 == tab {
                proof {
                    if self.tab_domains_unique() {
                        let w = choose|k: int|
                            0 <= k < self.tab_domains@.len() && (#[trigger] self.tab_domains@[k]).0
                                == tab;
                        assert(w == i);
                    }
                }
                return Some(self.tab_domains[i].1);
            }
            i = i + 1;
        }
        None
    }

    /// Records a freshly spawned tab: it is appended to the window's tab
    /// strip and becomes the active tab, and its domain is remembered.
    pub fn tab_spawned(&mut self, window_id: u64, tab_id: u64, domain_id: u64) -> (r: Result<
        (),
        SessionError,
    >)
        requires
            old(self).wf(),
            old(self).has_window(window_id) ==> old(self).windows@[old(self).window_index(
                window_id,
            )].tabs@.len() < 0x1000_0000,
            old(self).spec_tab_domain(tab_id) is None,
        ensures
            final(self).wf(),
            !old(self).has_window(window_id) ==> r == Err::<(), SessionError>(
                SessionError::NoSuchWindow,
            ) && *final(self) == *old(self),
            old(self).has_window(window_id) ==> {
                let w = old(self).window_index(window_id);
                &&& r is Ok
                &&& final(self).windows@[w].tabs@ =~= old(self).windows@[w].tabs@.push(tab_id)
                &&& final(self).windows@[w].active == old(self).windows@[w].tabs@.len()
                &&& final(self).tab_domains@ =~= old(self).tab_domains@.push((tab_id, domain_id))
            },
    {
        let i = match self.find_window(window_id) {
            None => {
                return Err(SessionError::NoSuchWindow);
            },
            Some(i) => i,
        };
        let ghost pre = self.windows@;
        let mut w = self.windows.remove(i);
        w.tabs.push(tab_id);
        w.active = w.tabs.len() - 1;
        let ghost wv = w;
        let ghost pre_td = self.tab_domains@;
        self.windows.insert(i, w);
        self.tab_domains.push((tab_id, domain_id));
        proof {
            assert(self.windows@ =~= pre.update(i as int, wv));
            assert forall|a: int, b: int|
                0 <= a < self.tab_domains@.len() && 0 <= b < self.tab_domains@.len() && a
                    != b implies (#[trigger] self.tab_domains@[a]).0 != (
            #[trigger] self.tab_domains@[b]).0 by {
                let last = self.tab_domains@.len() - 1;
                if a < last && b < last {
                    assert(self.tab_domains@[a] == pre_td[a]);
                    assert(self.tab_domains@[b] == pre_td[b]);
                } else if a == last {
                    assert(self.tab_domains@[b] == pre_td[b]);
                    assert(!(exists|k: int|
                        0 <= k < pre_td.len() && (#[trigger] pre_td[k]).0 == tab_id));
                    assert(pre_td[b].0 != tab_id);
                } else {
                    assert(self.tab_domains@[a] == pre_td[a]);
                    assert(!(exists|k: int|
                        0 <= k < pre_td.len() && (#[trigger] pre_td[k]).0 == tab_id));
                    assert(pre_td[a].0 != tab_id);
                }
            }
        }
        Ok(())
    }
}

/// How the window title reflects the tab strip: with a single tab the
/// title is the tab's own; with several it is prefixed by the one-based
/// active index and the count.
#[derive(Clone, Copy, Debug, PartialEq, Eq, Structural)]
pub struct TitleFormat {
    pub tab_no: usize,
    pub num_tabs: usize,
}

/// Computes what the window title should show: `None` when the window is
/// gone or has no tabs (the title is left as is).
pub fn compute_title(session: &SessionModel, window_id: u64) -> (r: Option<TitleFormat>)
    requires
        session.wf(),
    ensures
        match r {
            None => !session.has_window(window_id) || session.windows@[session.window_index(
                window_id,
            )].tabs@.len() == 0,
            Some(t) => {
                let w = session.window_index(window_id);
                &&& session.has_window(window_id)
                &&& session.windows@[w].tabs@.len() > 0
                &&& t.num_tabs == session.windows@[w].tabs@.len()
                &&& t.tab_no == session.windows@[w].active
            },
        },
{
    let i = match session.find_window(window_id) {
        None => {
            return None;
        },
        Some(i) => i,
    };
    let num_tabs = session.windows[i].tabs.len();
    if num_tabs == 0 {
        return None;
    }
    Some(TitleFormat { tab_no: session.windows[i].active, num_tabs })
}

/// The geometry and scale state a window controller carries.
pub struct WindowGeometry {
    pub cell_width: u32,
    pub cell_height: u32,
    pub dimensions: Dimensions,
    pub font_scale: Frac,
    pub descender: Frac,
    pub dec_rows: DecorationRows,
}

/// The terminal size derived from pixel dimensions and the cell size, as
/// the spawn rule computes it.
pub open spec fn spec_spawn_pty_size(d: Dimensions, cell_width: int, cell_height: int) -> PtySize {
    PtySize {
        rows: (((d.pixel_height + 1) as int / cell_height) % 0x1_0000) as u16,
        cols: (((d.pixel_width + 1) as int / cell_width) % 0x1_0000) as u16,
        pixel_width: (d.pixel_width % 0x1_0000) as u16,
        pixel_height: (d.pixel_height % 0x1_0000) as u16,
    }
}

/// The terminal size a new tab is spawned with.
pub fn spawn_pty_size(d: &Dimensions, cell_width: u32, cell_height: u32) -> (r: PtySize)
    requires
        cell_width >= 1,
        cell_height >= 1,
    ensures
        r == spec_spawn_pty_size(*d, cell_width as int, cell_height as int),
{
    let rows: u64 = ((d.pixel_height as u64) + 1) / (cell_height as u64);
    let cols: u64 = ((d.pixel_width as u64) + 1) / (cell_width as u64);
    PtySize {
        rows: (rows % 0x1_0000) as u16,
        cols: (cols % 0x1_0000) as u16,
        pixel_width: (d.pixel_width % 0x1_0000) as u16,
        pixel_height: (d.pixel_height % 0x1_0000) as u16,
    }
}

/// The terminal size every tab is resized to after a scaling change: the
/// plain quotients of the pixel dimensions by the cell size, truncated to
/// the transport's 16-bit fields only at the end.
pub open spec fn spec_resize_pty_size(d: Dimensions, cell_width: int, cell_height: int) -> PtySize {
    PtySize {
        rows: ((d.pixel_height as int / cell_height) % 0x1_0000) as u16,
        cols: ((d.pixel_width as int / cell_width) % 0x1_0000) as u16,
        pixel_width: (d.pixel_width % 0x1_0000) as u16,
        pixel_height: (d.pixel_height % 0x1_0000) as u16,
    }
}

/// What a scaling change decided: whether the cell metrics changed (the
/// atlas and glyph cache must then be rebuilt and every cached sprite
/// discarded), and the size every tab is resized to.
pub struct ScalingOutcome {
    pub rebuilt: bool,
    pub resize: PtySize,
}

/// Applies a dimension or font-scale change to the window geometry.
///
/// When neither the dpi nor the font scale changed, the cell metrics are
/// untouched and no rebuild is needed; otherwise the cell size is the
/// ceiling of the (already rescaled) font metrics, the decoration rows are
/// recomputed, and the caller must rebuild the atlas and cache.  In both
/// cases the stored dimensions are replaced and every tab of the window is
/// resized to the new grid.
pub fn scaling_changed(
    geom: &mut WindowGeometry,
    dimensions: Dimensions,
    font_scale: Frac,
    metrics: &FontMetrics,
) -> (r: ScalingOutcome)
    requires
        old(geom).font_scale.wf(),
        font_scale.wf(),
        metrics.wf(),
        old(geom).cell_width >= 1,
        old(geom).cell_height >= 1,
    ensures
        r.rebuilt == !(dimensions.dpi == old(geom).dimensions.dpi && frac_eq(
            font_scale,
            old(geom).font_scale,
        )),
        !r.rebuilt ==> {
            &&& final(geom).cell_width == old(geom).cell_width
            &&& final(geom).cell_height == old(geom).cell_height
            &&& final(geom).dec_rows == old(geom).dec_rows
            &&& final(geom).font_scale == old(geom).font_scale
            &&& final(geom).descender == old(geom).descender
        },
        r.rebuilt ==> {
            &&& final(geom).cell_width == spec_ceil(metrics.cell_width)
            &&& final(geom).cell_height == spec_ceil(metrics.cell_height)
            &&& final(geom).descender == metrics.descender
            &&& final(geom).font_scale == font_scale
            &&& final(geom).dec_rows.descender_row == spec_descender_row(
                spec_ceil(metrics.cell_height),
                metrics.descender,
            )
        },
        r.rebuilt ==> {
            &&& 0 <= final(geom).dec_rows.descender_row <= final(geom).cell_height
            &&& 0 <= final(geom).dec_rows.descender_plus_one <= final(geom).cell_height
            &&& 0 <= final(geom).dec_rows.descender_plus_two <= final(geom).cell_height
            &&& 0 <= final(geom).dec_rows.strike_row <= final(geom).cell_height
        },
        final(geom).dimensions == dimensions,
        final(geom).cell_width >= 1,
        final(geom).cell_height >= 1,
        r.resize == spec_resize_pty_size(
            dimensions,
            final(geom).cell_width as int,
            final(geom).cell_height as int,
        ),
{
    let rebuilt = !(dimensions.dpi == geom.dimensions.dpi && crate::frac::frac_value_eq(
        &font_scale,
        &geom.font_scale,
    ));
    if rebuilt {
        let cell_width = ceil_frac(&metrics.cell_width) as u32;
        let cell_height = ceil_frac(&metrics.cell_height) as u32;
        proof {
            assert(cell_height * metrics.descender.den + metrics.descender.num >= 0)
                by (nonlinear_arith)
                requires
                    cell_height >= (metrics.cell_height.num + metrics.cell_height.den - 1) / (
                    metrics.cell_height.den as int),
                    metrics.cell_height.num * metrics.descender.den + metrics.descender.num
                        * metrics.cell_height.den >= 0,
                    metrics.cell_height.den > 0,
                    metrics.descender.den > 0,
                    metrics.cell_height.num > 0,
            ;
            assert(cell_width >= 1 && cell_height >= 1) by (nonlinear_arith)
                requires
                    cell_width == (metrics.cell_width.num + metrics.cell_width.den - 1) / (
                    metrics.cell_width.den as int),
                    cell_height == (metrics.cell_height.num + metrics.cell_height.den - 1) / (
                    metrics.cell_height.den as int),
                    metrics.cell_width.num > 0,
                    metrics.cell_width.den > 0,
                    metrics.cell_height.num > 0,
                    metrics.cell_height.den > 0,
            ;
        }
        let dec_rows = compute_decoration_rows(cell_height as u64, &metrics.descender);
        geom.cell_width = cell_width;
        geom.cell_height = cell_height;
        geom.descender = metrics.descender;
        geom.dec_rows = dec_rows;
        geom.font_scale = font_scale;
    }
    geom.dimensions = dimensions;
    let rows: u32 = dimensions.pixel_height / geom.cell_height;
    let cols: u32 = dimensions.pixel_width / geom.cell_width;
    let resize = PtySize {
        rows: (rows % 0x1_0000) as u16,
        cols: (cols % 0x1_0000) as u16,
        pixel_width: (dimensions.pixel_width % 0x1_0000) as u16,
        pixel_height: (dimensions.pixel_height % 0x1_0000) as u16,
    };
    ScalingOutcome { rebuilt, resize }
}

/// One font-size step: shrink to nine tenths.
pub fn decreased_font_scale(scale: &Frac) -> (r: Option<Frac>)
    requires
        scale.wf(),
    ensures
        match r {
            Some(f) => f.wf() && f.num == scale.num * 9 && f.den == scale.den * 10,
            None => scale.num * 9 > i64::MAX || scale.num * 9 < i64::MIN || scale.den * 10
                > i64::MAX,
        },
{
    let num = (scale.num as i128) * 9;
    let den = (scale.den as i128) * 10;
    if num <= (i64::MAX as i128) && num >= (i64::MIN as i128) && den <= (i64::MAX as i128) {
        Some(Frac { num: num as i64, den: den as i64 })
    } else {
        None
    }
}

/// One font-size step: grow to eleven tenths.
pub fn increased_font_scale(scale: &Frac) -> (r: Option<Frac>)
    requires
        scale.wf(),
    ensures
        match r {
            Some(f) => f.wf() && f.num == scale.num * 11 && f.den == scale.den * 10,
            None => scale.num * 11 > i64::MAX || scale.num * 11 < i64::MIN || scale.den * 10
                > i64::MAX,
        },
{
    let num = (scale.num as i128) * 11;
    let den = (scale.den as i128) * 10;
    if num <= (i64::MAX as i128) && num >= (i64::MIN as i128) && den <= (i64::MAX as i128) {
        Some(Frac { num: num as i64, den: den as i64 })
    } else {
        None
    }
}

/// Side length of the texture atlas a fresh window starts with.
pub const INITIAL_ATLAS_SIDE: u32 = 4096;

/// Period of the repaint timer, in milliseconds.
pub const TIMER_INTERVAL_MS: u64 = 35;

/// Everything a fresh window is created with: the cell size derived from
/// the font metrics, the pixel size covering the tab's grid, the default
/// dpi before the OS reports the real one, the decoration rows, and the
/// initial atlas size.
pub struct WindowPlan {
    pub geometry: WindowGeometry,
    pub atlas_side: u32,
}

/// Plans a new window around a tab's grid: cell sizes are the ceilings of
/// the font metrics, the window is exactly as large as the grid, the dpi
/// starts at 96 until a resize reports the real value, and the font scale
/// starts at one.
pub fn plan_new_window(metrics: &FontMetrics, phys_rows: u32, phys_cols: u32) -> (r: WindowPlan)
    requires
        metrics.wf(),
        phys_rows <= 0x1000,
        phys_cols <= 0x1000,
        spec_ceil(metrics.cell_width) <= 0xFFFF,
        spec_ceil(metrics.cell_height) <= 0xFFFF,
    ensures
        r.geometry.cell_width == spec_ceil(metrics.cell_width),
        r.geometry.cell_height == spec_ceil(metrics.cell_height),
        r.geometry.dimensions.pixel_width == r.geometry.cell_width * phys_cols,
        r.geometry.dimensions.pixel_height == r.geometry.cell_height * phys_rows,
        r.geometry.dimensions.dpi == 96,
        r.geometry.font_scale == (Frac { num: 1, den: 1 }),
        r.geometry.descender == metrics.descender,
        r.geometry.dec_rows.descender_row == spec_descender_row(
            spec_ceil(metrics.cell_height),
            metrics.descender,
        ),
        r.atlas_side == INITIAL_ATLAS_SIDE,
        r.geometry.cell_width >= 1,
        r.geometry.cell_height >= 1,
{
    let cell_width = ceil_frac(&metrics.cell_width);
    let cell_height = ceil_frac(&metrics.cell_height);
    proof {
        assert(cell_height * metrics.descender.den + metrics.descender.num >= 0)
            by (nonlinear_arith)
            requires
                cell_height >= (metrics.cell_height.num + metrics.cell_height.den - 1) / (
                metrics.cell_height.den as int),
                metrics.cell_height.num * metrics.descender.den + metrics.descender.num
                    * metrics.cell_height.den >= 0,
                metrics.cell_height.den > 0,
                metrics.descender.den > 0,
                metrics.cell_height.num > 0,
        ;
        assert(cell_width >= 1 && cell_height >= 1) by (nonlinear_arith)
            requires
                cell_width == (metrics.cell_width.num + metrics.cell_width.den - 1) / (
                metrics.cell_width.den as int),
                cell_height == (metrics.cell_height.num + metrics.cell_height.den - 1) / (
                metrics.cell_height.den as int),
                metrics.cell_width.num > 0,
                metrics.cell_width.den > 0,
                metrics.cell_height.num > 0,
                metrics.cell_height.den > 0,
        ;
    }
    let dec_rows = compute_decoration_rows(cell_height, &metrics.descender);
    proof {
        assert(cell_width * phys_cols <= 0xFFFF_i64 * 0x1000 && cell_height * phys_rows
            <= 0xFFFF_i64 * 0x1000) by (nonlinear_arith)
            requires
                0 <= cell_width <= 0xFFFF,
                0 <= cell_height <= 0xFFFF,
                0 <= phys_cols <= 0x1000,
                0 <= phys_rows <= 0x1000,
        ;
    }
    let width: u64 = cell_width * (phys_cols as u64);
    let height: u64 = cell_height * (phys_rows as u64);
    WindowPlan {
        geometry: WindowGeometry {
            cell_width: cell_width as u32,
            cell_height: cell_height as u32,
            dimensions: Dimensions {
                pixel_width: width as u32,
                pixel_height: height as u32,
                dpi: 96,
            },
            font_scale: Frac { num: 1, den: 1 },
            descender: metrics.descender,
            dec_rows,
        },
        atlas_side: INITIAL_ATLAS_SIDE,
    }
}

/// What the periodic repaint timer decides on each tick: request a repaint
/// when the active tab has dirty lines, close the window when it lost its
/// last tab, and otherwise do nothing.
#[derive(Clone, Copy, Debug, PartialEq, Eq, Structural)]
pub enum TimerAction {
    Invalidate,
    CloseWindow,
    Nothing,
}

/// The repaint timer's decision.
pub fn timer_tick(has_active_tab: bool, has_dirty_lines: bool) -> (r: TimerAction)
    ensures
        r == (if has_active_tab {
            if has_dirty_lines {
                TimerAction::Invalidate
            } else {
                TimerAction::Nothing
            }
        } else {
            TimerAction::CloseWindow
        }),
{
    if has_active_tab {
        if has_dirty_lines {
            TimerAction::Invalidate
        } else {
            TimerAction::Nothing
        }
    } else {
        TimerAction::CloseWindow
    }
}

/// Coalesces repaint requests: any number of invalidate requests between
/// two paints produce exactly one paint.
pub struct InvalidateCoalescer {
    pub pending: bool,
}

impl InvalidateCoalescer {
    /// No repaint pending initially.
    pub fn new() -> (r: InvalidateCoalescer)
        ensures
            !r.pending,
    {
        InvalidateCoalescer { pending: false }
    }

    /// Requests a repaint; repeated requests collapse into one.
    pub fn request(&mut self)
        ensures
            final(self).pending,
    {
        self.pending = true;
    }

    /// Takes the pending repaint, if any: true at most once per request
    /// burst, and false until the next request.
    pub fn take_paint(&mut self) -> (r: bool)
        ensures
            r == old(self).pending,
            !final(self).pending,
    {
        let r = self.pending;
        self.pending = false;
        r
    }
}

} // verus!
