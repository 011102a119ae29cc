//! Input mapping: OS key and mouse events become terminal input or bound
//! actions.
//!
//! Only key-down events have an effect; composed (IME) text bypasses the
//! binding table and is written straight to the process transport.  Mouse
//! positions map to the cell grid by integer division; move events with
//! several buttons held resolve by the precedence left, right, middle,
//! none; wheel events become synthetic wheel buttons carrying their
//! magnitude, and horizontal wheel events are unmapped.

use crate::frac::Frac;
use crate::window::{
    spawn_pty_size, PtySize, SessionError, SessionModel, SpawnTabDomain, WindowGeometry,
};
use vstd::prelude::*;

verus! {

/// Modifier keys as the OS window layer reports them.
#[derive(Clone, Copy, Debug, PartialEq, Eq, Structural)]
pub struct WindowModifiers {
    pub shift: bool,
    pub alt: bool,
    pub ctrl: bool,
    pub super_key: bool,
}

/// Modifier keys as the terminal input layer takes them.
#[derive(Clone, Copy, Debug, PartialEq, Eq, Structural)]
pub struct TermModifiers {
    pub shift: bool,
    pub alt: bool,
    pub ctrl: bool,
    pub super_key: bool,
}

/// Translates OS modifiers to terminal modifiers, one flag at a time.
pub fn window_mods_to_termwiz_mods(modifiers: WindowModifiers) -> (r: TermModifiers)
    ensures
        r.shift == modifiers.shift,
        r.alt == modifiers.alt,
        r.ctrl == modifiers.ctrl,
        r.super_key == modifiers.super_key,
{
    TermModifiers {
        shift: modifiers.shift,
        alt: modifiers.alt,
        ctrl: modifiers.ctrl,
        super_key: modifiers.super_key,
    }
}

/// A physical mouse button.
#[derive(Clone, Copy, Debug, PartialEq, Eq, Structural)]
pub enum MousePress {
    Left,
    Middle,
    Right,
}

/// Which buttons are held during a move event.
#[derive(Clone, Copy, Debug, PartialEq, Eq, Structural)]
pub struct MouseButtons {
    pub left: bool,
    pub middle: bool,
    pub right: bool,
}

/// A mouse event as the OS window layer delivers it.
#[derive(Clone, Copy, Debug, PartialEq, Eq, Structural)]
pub enum WindowMouseEventKind {
    Move,
    Press(MousePress),
    Release(MousePress),
    DoubleClick(MousePress),
    VertWheel(i32),
    HorzWheel(i32),
}

#[derive(Clone, Copy, Debug, PartialEq, Eq, Structural)]
pub struct WindowMouseEvent {
    pub kind: WindowMouseEventKind,
    pub x: u32,
    pub y: u32,
    pub mouse_buttons: MouseButtons,
    pub modifiers: WindowModifiers,
}

/// A mouse button as the terminal input layer takes it.  `NoButton` stands
/// for a move with nothing held (or an unmapped event).
#[derive(Clone, Copy, Debug, PartialEq, Eq, Structural)]
pub enum TermMouseButton {
    Left,
    Middle,
    Right,
    WheelUp(usize),
    WheelDown(usize),
    NoButton,
}

#[derive(Clone, Copy, Debug, PartialEq, Eq, Structural)]
pub enum TermMouseEventKind {
    Move,
    Press,
    Release,
}

/// A mouse event as the terminal model takes it: grid coordinates, the
/// resolved button, and translated modifiers.
#[derive(Clone, Copy, Debug, PartialEq, Eq, Structural)]
pub struct TermMouseEvent {
    pub kind: TermMouseEventKind,
    pub button: TermMouseButton,
    pub x: usize,
    pub y: i64,
    pub modifiers: TermModifiers,
}

/// The terminal event kind an OS mouse event maps to: presses, double
/// clicks and vertical wheel turns all press; releases release; moves
/// move.  A horizontal wheel turn is unmapped: nothing is forwarded.
pub open spec fn spec_mouse_kind(kind: WindowMouseEventKind) -> TermMouseEventKind {
    match kind {
        WindowMouseEventKind::Move => TermMouseEventKind::Move,
        WindowMouseEventKind::Release(_) => TermMouseEventKind::Release,
        _ => TermMouseEventKind::Press,
    }
}

/// The terminal button an OS mouse event maps to.  For moves, held buttons
/// resolve by the precedence left over right over middle over none; a
/// vertical wheel turn becomes a wheel button carrying its magnitude; a
/// horizontal wheel is unmapped.
pub open spec fn spec_mouse_button(kind: WindowMouseEventKind, held: MouseButtons) -> TermMouseButton {
    match kind {
        WindowMouseEventKind::Press(p) | WindowMouseEventKind::Release(p)
            | WindowMouseEventKind::DoubleClick(p) => match p {
            MousePress::Left => TermMouseButton::Left,
            MousePress::Middle => TermMouseButton::Middle,
            MousePress::Right => TermMouseButton::Right,
        },
        WindowMouseEventKind::Move => if held.left {
            TermMouseButton::Left
        } else if held.right {
            TermMouseButton::Right
        } else if held.middle {
            TermMouseButton::Middle
        } else {
            TermMouseButton::NoButton
        },
        WindowMouseEventKind::VertWheel(amount) => if amount > 0 {
            TermMouseButton::WheelUp(amount as usize)
        } else {
            TermMouseButton::WheelDown((-(amount as int)) as usize)
        },
        WindowMouseEventKind::HorzWheel(_) => TermMouseButton::NoButton,
    }
}

/// The full translation of an OS mouse event, when one exists: the pixel
/// position maps to the cell grid by integer division, the kind and button
/// by the rules above, the modifiers flag for flag.  A horizontal wheel
/// turn translates to nothing.
pub open spec fn spec_translate_mouse(
    event: WindowMouseEvent,
    cell_width: int,
    cell_height: int,
) -> Option<TermMouseEvent> {
    match event.kind {
        WindowMouseEventKind::HorzWheel(_) => None,
        _ => Some(
            TermMouseEvent {
                kind: spec_mouse_kind(event.kind),
                button: spec_mouse_button(event.kind, event.mouse_buttons),
                x: (event.x as int / cell_width) as usize,
                y: (event.y as int / cell_height) as i64,
                modifiers: TermModifiers {
                    shift: event.modifiers.shift,
                    alt: event.modifiers.alt,
                    ctrl: event.modifiers.ctrl,
                    super_key: event.modifiers.super_key,
                },
            },
        ),
    }
}

/// Translates an OS mouse event to a terminal mouse event: the pixel
/// position maps to a cell by integer division with the cell size.  A
/// horizontal wheel turn is unmapped and yields nothing.
pub fn translate_mouse_event(event: &WindowMouseEvent, cell_width: u32, cell_height: u32) -> (r:
    Option<TermMouseEvent>)
    requires
        cell_width >= 1,
        cell_height >= 1,
    ensures
        r == spec_translate_mouse(*event, cell_width as int, cell_height as int),
{
    if matches!(event.kind, WindowMouseEventKind::HorzWheel(_)) {
        return None;
    }
    let kind = match event.kind {
        WindowMouseEventKind::Move => TermMouseEventKind::Move,
        WindowMouseEventKind::Release(_) => TermMouseEventKind::Release,
        _ => TermMouseEventKind::Press,
    };
    let button = match event.kind {
        WindowMouseEventKind::Press(p) | WindowMouseEventKind::Release(p)
            | WindowMouseEventKind::DoubleClick(p) => match p {
            MousePress::Left => TermMouseButton::Left,
            MousePress::Middle => TermMouseButton::Middle,
            MousePress::Right => TermMouseButton::Right,
        },
        WindowMouseEventKind::Move => {
            let held = event.mouse_buttons;
            if held.left {
                TermMouseButton::Left
            } else if held.right {
                TermMouseButton::Right
            } else if held.middle {
                TermMouseButton::Middle
            } else {
                TermMouseButton::NoButton
            }
        },
        WindowMouseEventKind::VertWheel(amount) => {
            if amount > 0 {
                TermMouseButton::WheelUp(amount as usize)
            } else if amount == i32::MIN {
                TermMouseButton::WheelDown(0x8000_0000)
            } else {
                TermMouseButton::WheelDown((-amount) as usize)
            }
        },
        WindowMouseEventKind::HorzWheel(_) => TermMouseButton::NoButton,
    };
    Some(
        TermMouseEvent {
            kind,
            button,
            x: (event.x / cell_width) as usize,
            y: (event.y / cell_height) as i64,
            modifiers: window_mods_to_termwiz_mods(event.modifiers),
        },
    )
}

/// A mouse event other than a bare move invalidates the window so the
/// effect of the click becomes visible.
pub fn mouse_event_invalidates(kind: WindowMouseEventKind) -> (r: bool)
    ensures
        r == !(kind is Move),
{
    !matches!(kind, WindowMouseEventKind::Move)
}

/// The pointer icon shown over the terminal: a hand over a hovered
/// hyperlink, the text cursor otherwise.
#[derive(Clone, Copy, Debug, PartialEq, Eq, Structural)]
pub enum MouseCursorIcon {
    Hand,
    Text,
}

/// Chooses the pointer icon from the hover state.
pub fn cursor_for_highlight(has_highlight: bool) -> (r: MouseCursorIcon)
    ensures
        r == (if has_highlight {
            MouseCursorIcon::Hand
        } else {
            MouseCursorIcon::Text
        }),
{
    if has_highlight {
        MouseCursorIcon::Hand
    } else {
        MouseCursorIcon::Text
    }
}

/// A key as the OS window layer reports it.
#[derive(Debug, PartialEq, Eq)]
pub enum WindowKeyCode {
    Char(char),
    Composed(String),
    Function(u8),
    LeftArrow,
    RightArrow,
    UpArrow,
    DownArrow,
    Home,
    End,
    PageUp,
    PageDown,
    Unmapped,
}

/// A key as the terminal input layer takes it.
#[derive(Clone, Copy, Debug, PartialEq, Eq, Structural)]
pub enum TermKeyCode {
    Char(char),
    Function(u8),
    LeftArrow,
    RightArrow,
    UpArrow,
    DownArrow,
    Home,
    End,
    PageUp,
    PageDown,
}

/// A key event as the OS window layer delivers it.
pub struct KeyEvent {
    pub key: WindowKeyCode,
    pub modifiers: WindowModifiers,
    pub key_is_down: bool,
}

/// The terminal key an OS key maps to, when one exists.  Composed text and
/// keys outside the mapped set translate to nothing.
pub open spec fn spec_translate_key(key: WindowKeyCode) -> Option<TermKeyCode> {
    match key {
        WindowKeyCode::Char(c) => Some(TermKeyCode::Char(c)),
        WindowKeyCode::Function(f) => Some(TermKeyCode::Function(f)),
        WindowKeyCode::LeftArrow => Some(TermKeyCode::LeftArrow),
        WindowKeyCode::RightArrow => Some(TermKeyCode::RightArrow),
        WindowKeyCode::UpArrow => Some(TermKeyCode::UpArrow),
        WindowKeyCode::DownArrow => Some(TermKeyCode::DownArrow),
        WindowKeyCode::Home => Some(TermKeyCode::Home),
        WindowKeyCode::End => Some(TermKeyCode::End),
        WindowKeyCode::PageUp => Some(TermKeyCode::PageUp),
        WindowKeyCode::PageDown => Some(TermKeyCode::PageDown),
        _ => None,
    }
}

/// Translates an OS key to a terminal key.
pub fn translate_key_code(key: &WindowKeyCode) -> (r: Option<TermKeyCode>)
    ensures
        r == spec_translate_key(*key),
{
    match key {
        WindowKeyCode::Char(c) => Some(TermKeyCode::Char(*c)),
        WindowKeyCode::Function(f) => Some(TermKeyCode::Function(*f)),
        WindowKeyCode::LeftArrow => Some(TermKeyCode::LeftArrow),
        WindowKeyCode::RightArrow => Some(TermKeyCode::RightArrow),
        WindowKeyCode::UpArrow => Some(TermKeyCode::UpArrow),
        WindowKeyCode::DownArrow => Some(TermKeyCode::DownArrow),
        WindowKeyCode::Home => Some(TermKeyCode::Home),
        WindowKeyCode::End => Some(TermKeyCode::End),
        WindowKeyCode::PageUp => Some(TermKeyCode::PageUp),
        WindowKeyCode::PageDown => Some(TermKeyCode::PageDown),
        _ => None,
    }
}

/// An action a key binding can be bound to.
pub enum KeyAssignment {
    SpawnTab(SpawnTabDomain),
    SpawnWindow,
    ToggleFullScreen,
    CopySelection,
    Paste,
    ActivateTabRelative(i64),
    DecreaseFontSize,
    IncreaseFontSize,
    ResetFontSize,
    ActivateTab(usize),
    SendString(String),
    SendBytes(Vec<u8>),
    Hide,
    Show,
    CloseCurrentTab,
    Nop,
}

/// Field-wise equality of terminal keys.
pub fn term_key_equal(a: &TermKeyCode, b: &TermKeyCode) -> (r: bool)
    ensures
        r == (a == b),
{
    match (a, b) {
        (TermKeyCode::Char(x), TermKeyCode::Char(y)) => x == y,
        (TermKeyCode::Function(x), TermKeyCode::Function(y)) => x == y,
        (TermKeyCode::LeftArrow, TermKeyCode::LeftArrow) => true,
        (TermKeyCode::RightArrow, TermKeyCode::RightArrow) => true,
        (TermKeyCode::UpArrow, TermKeyCode::UpArrow) => true,
        (TermKeyCode::DownArrow, TermKeyCode::DownArrow) => true,
        (TermKeyCode::Home, TermKeyCode::Home) => true,
        (TermKeyCode::End, TermKeyCode::End) => true,
        (TermKeyCode::PageUp, TermKeyCode::PageUp) => true,
        (TermKeyCode::PageDown, TermKeyCode::PageDown) => true,
        _ => false,
    }
}

/// The ordered key-binding table: the earliest entry matching a key and
/// modifier set wins.
pub struct KeyMap {
    pub entries: Vec<(TermKeyCode, TermModifiers, KeyAssignment)>,
}

impl KeyMap {
    /// Whether some entry binds this key and modifier set.
    pub open spec fn has_binding(self, key: TermKeyCode, mods: TermModifiers) -> bool {
        exists|i: int|
            0 <= i < self.entries@.len() && (#[trigger] self.entries@[i]).0 == key
                && self.entries@[i].1 == mods
    }

    /// The position of the first matching entry.
    pub open spec fn spec_lookup(self, key: TermKeyCode, mods: TermModifiers) -> int {
        choose|i: int|
            0 <= i < self.entries@.len() && (#[trigger] self.entries@[i]).0 == key
                && self.entries@[i].1 == mods && (forall|j: int|
                0 <= j < i ==> !((#[trigger] self.entries@[j]).0 == key && self.entries@[j].1
                    == mods))
    }

    /// Ordered lookup: the index of the first entry bound to this key and
    /// modifier set, if any.
    pub fn lookup(&self, key: &TermKeyCode, mods: &TermModifiers) -> (r: Option<usize>)
        ensures
            match r {
                Some(i) => {
                    &&& self.has_binding(*key, *mods)
                    &&& i < self.entries@.len()
                    &&& self.entries@[i as int].0 == *key
                    &&& self.entries@[i as int].1 == *mods
                    &&& forall|j: int|
                        0 <= j < i ==> !((#[trigger] self.entries@[j]).0 == *key
                            && self.entries@[j].1 == *mods)
                },
                None => !self.has_binding(*key, *mods),
            },
    {
        let n = self.entries.len();
        let mut i: usize = 0;
        while i < n
            invariant
                n == self.entries@.len(),
                0 <= i <= n,
                forall|j: int|
                    0 <= j < i ==> !((#[trigger] self.entries@[j]).0 == *key && self.entries@[j].1
                        == *mods),
            decreases n - i,
        {
            if term_key_equal(&self.entries[i].0, key) && self.entries[i].1.shift == mods.shift
                && self.entries[i].1.alt == mods.alt && self.entries[i].1.ctrl == mods.ctrl
                && self.entries[i].1.super_key == mods.super_key {
                return Some(i);
            }
            i = i + 1;
        }
        None
    }
}

/// What a key event decides: nothing (key-up, no tab, or an unmapped key),
/// composed text written straight to the process transport, a bound action
/// (the index of the winning binding), or a key forwarded to the tab.
pub enum KeyDispatch {
    Ignored,
    WriteToPty(String),
    Assignment(usize),
    ForwardToTab(TermKeyCode, TermModifiers),
}

/// Decides what a key event does.  Only key-down events with an active tab
/// have an effect; composed text bypasses the binding table; a mapped key
/// first consults the binding table and otherwise goes to the tab.  The
/// returned flag says whether the event was handled.
pub fn key_event_dispatch(key: KeyEvent, keys: &KeyMap, has_tab: bool) -> (r: (KeyDispatch, bool))
    ensures
        (!key.key_is_down || !has_tab) ==> r.0 is Ignored && r.1 == false,
        key.key_is_down && has_tab ==> {
            let mods = TermModifiers {
                shift: key.modifiers.shift,
                alt: key.modifiers.alt,
                ctrl: key.modifiers.ctrl,
                super_key: key.modifiers.super_key,
            };
            match key.key {
                WindowKeyCode::Composed(s) => r.0 == KeyDispatch::WriteToPty(s) && r.1 == true,
                _ => match spec_translate_key(key.key) {
                    Some(kc) => {
                        if keys.has_binding(kc, mods) {
                            &&& r.0 is Assignment
                            &&& r.0->Assignment_0 < keys.entries@.len()
                            &&& keys.entries@[r.0->Assignment_0 as int].0 == kc
                            &&& keys.entries@[r.0->Assignment_0 as int].1 == mods
                            &&& r.1 == true
                        } else {
                            r.0 == KeyDispatch::ForwardToTab(kc, mods) && r.1 == true
                        }
                    },
                    None => r.0 is Ignored && r.1 == false,
                },
            }
        },
{
    if !key.key_is_down || !has_tab {
        return (KeyDispatch::Ignored, false);
    }
    let mods = window_mods_to_termwiz_mods(key.modifiers);
    match key.key {
        WindowKeyCode::Composed(s) => (KeyDispatch::WriteToPty(s), true),
        other => {
            match translate_key_code(&other) {
                Some(kc) => {
                    match keys.lookup(&kc, &mods) {
                        Some(i) => (KeyDispatch::Assignment(i), true),
                        None => (KeyDispatch::ForwardToTab(kc, mods), true),
                    }
                },
                None => (KeyDispatch::Ignored, false),
            }
        },
    }
}

/// The external work a performed key assignment asks of the embedding: it
/// is what the verified dispatcher cannot do itself (spawn a process, reach
/// the clipboard, hide or show the OS window, write to the transport).
pub enum AssignmentAction {
    SpawnTabIn(u64, PtySize),
    SpawnNewWindow,
    PasteFromClipboard,
    WriteStringToPty(String),
    WriteBytesToPty(Vec<u8>),
    HideWindow,
    ShowWindow,
    RescaleTo(Frac),
    Nothing,
    Failed(SessionError),
}

/// What performing one key assignment does: how the session changes and
/// which external action the embedding is asked to run.
pub open spec fn spec_assignment_outcome(
    pre: SessionModel,
    post: SessionModel,
    geom: WindowGeometry,
    window_id: u64,
    assignment: KeyAssignment,
    r: AssignmentAction,
) -> bool {
    match assignment {
        KeyAssignment::Paste => r == AssignmentAction::PasteFromClipboard && post == pre,
        KeyAssignment::SendString(s) => (r matches AssignmentAction::WriteStringToPty(t)
            && t@ == s@) && post == pre,
        KeyAssignment::SendBytes(b) => (r matches AssignmentAction::WriteBytesToPty(t) && t@
            == b@) && post == pre,
        KeyAssignment::SpawnWindow => r == AssignmentAction::SpawnNewWindow && post == pre,
        KeyAssignment::Hide => r == AssignmentAction::HideWindow
            && post == pre,
        KeyAssignment::Show => r == AssignmentAction::ShowWindow
            && post == pre,
        KeyAssignment::ToggleFullScreen => r == AssignmentAction::Nothing && post == pre,
        KeyAssignment::CopySelection => r == AssignmentAction::Nothing && post == pre,
        KeyAssignment::Nop => r == AssignmentAction::Nothing
            && post == pre,
        KeyAssignment::ResetFontSize => r == AssignmentAction::RescaleTo(
            Frac { num: 1, den: 1 },
        ) && post == pre,
        KeyAssignment::SpawnTab(domain) => {
            match pre.spec_resolve_spawn_domain(window_id, domain) {
                Ok(d) => r == AssignmentAction::SpawnTabIn(
                    d,
                    crate::window::spec_spawn_pty_size(
                        geom.dimensions,
                        geom.cell_width as int,
                        geom.cell_height as int,
                    ),
                ),
                Err(e) => r == AssignmentAction::Failed(e),
            }
        },
        KeyAssignment::ActivateTab(n) => {
            if pre.has_window(window_id) {
                let w = pre.window_index(window_id);
                let old_tabs = pre.windows@[w].tabs@;
                &&& r == AssignmentAction::Nothing
                &&& (n < old_tabs.len() ==> post.windows@[w].active == n
                    && post.windows@[w].tabs@ == old_tabs)
                &&& (n >= old_tabs.len() ==> post == pre)
            } else {
                r == AssignmentAction::Failed(SessionError::NoSuchWindow) && post == pre
            }
        },
        KeyAssignment::ActivateTabRelative(n) => {
            if !pre.has_window(window_id) {
                r == AssignmentAction::Failed(SessionError::NoSuchWindow) && post == pre
            } else if pre.windows@[pre.window_index(
                window_id,
            )].tabs@.len() == 0 {
                r == AssignmentAction::Failed(SessionError::NoMoreTabs) && post == pre
            } else {
                let w = pre.window_index(window_id);
                let max = pre.windows@[w].tabs@.len() as int;
                let wanted = pre.windows@[w].active + n;
                let wrapped = if wanted < 0 {
                    max + wanted
                } else {
                    wanted
                };
                &&& r == AssignmentAction::Nothing
                &&& (wrapped >= 0 ==> post.windows@[w].active == wrapped % max
                    && post.windows@[w].tabs@ == pre.windows@[w].tabs@)
                &&& (wrapped < 0 ==> post == pre)
            }
        },
        KeyAssignment::CloseCurrentTab => {
            &&& r == AssignmentAction::Nothing
            &&& match pre.spec_active_tab(window_id) {
                None => post == pre,
                Some(tab) => {
                    let w = pre.window_index(window_id);
                    post.windows@[w].tabs@ =~= pre.windows@[w].tabs@.remove(
                        pre.windows@[w].active as int,
                    )
                },
            }
        },
        KeyAssignment::DecreaseFontSize => {
            &&& post == pre
            &&& if geom.font_scale.num * 9 <= i64::MAX && geom.font_scale.num * 9 >= i64::MIN
                && geom.font_scale.den * 10 <= i64::MAX {
                r == AssignmentAction::RescaleTo(
                    Frac { num: (geom.font_scale.num * 9) as i64, den: (geom.font_scale.den
                        * 10) as i64 },
                )
            } else {
                r == AssignmentAction::Nothing
            }
        },
        KeyAssignment::IncreaseFontSize => {
            &&& post == pre
            &&& if geom.font_scale.num * 11 <= i64::MAX && geom.font_scale.num * 11
                >= i64::MIN && geom.font_scale.den * 10 <= i64::MAX {
                r == AssignmentAction::RescaleTo(
                    Frac { num: (geom.font_scale.num * 11) as i64, den: (geom.font_scale.den
                        * 10) as i64 },
                )
            } else {
                r == AssignmentAction::Nothing
            }
        },
    }
}

/// Performs a key assignment: tab activation, tab close and the font-size
/// rules update the session here; everything that needs an external
/// capability is returned as an action for the embedding to run.
pub fn perform_key_assignment(
    session: &mut SessionModel,
    geom: &WindowGeometry,
    window_id: u64,
    assignment: &KeyAssignment,
) -> (r: AssignmentAction)
    requires
        old(session).wf(),
        geom.font_scale.wf(),
        geom.cell_width >= 1,
        geom.cell_height >= 1,
    ensures
        final(session).wf(),
        spec_assignment_outcome(
            *old(session),
            *final(session),
            *geom,
            window_id,
            *assignment,
            r,
        ),
{
    match assignment {
        KeyAssignment::SpawnTab(domain) => {
            match session.resolve_spawn_domain(window_id, domain) {
                Ok(d) => AssignmentAction::SpawnTabIn(
                    d,
                    spawn_pty_size(&geom.dimensions, geom.cell_width, geom.cell_height),
                ),
                Err(e) => AssignmentAction::Failed(e),
            }
        },
        KeyAssignment::SpawnWindow => AssignmentAction::SpawnNewWindow,
        KeyAssignment::ToggleFullScreen => AssignmentAction::Nothing,
        KeyAssignment::CopySelection => {
            // copying is implicit: the selection already sits in the clipboard
            AssignmentAction::Nothing
        },
        KeyAssignment::Paste => AssignmentAction::PasteFromClipboard,
        KeyAssignment::ActivateTabRelative(n) => {
            match session.activate_tab_relative(window_id, *n) {
                Ok(_) => AssignmentAction::Nothing,
                Err(e) => AssignmentAction::Failed(e),
            }
        },
        KeyAssignment::DecreaseFontSize => {
            match crate::window::decreased_font_scale(&geom.font_scale) {
                Some(f) => AssignmentAction::RescaleTo(f),
                None => AssignmentAction::Nothing,
            }
        },
        KeyAssignment::IncreaseFontSize => {
            match crate::window::increased_font_scale(&geom.font_scale) {
                Some(f) => AssignmentAction::RescaleTo(f),
                None => AssignmentAction::Nothing,
            }
        },
        KeyAssignment::ResetFontSize => AssignmentAction::RescaleTo(Frac { num: 1, den: 1 }),
        KeyAssignment::ActivateTab(n) => {
            match session.activate_tab(window_id, *n) {
                Ok(_) => AssignmentAction::Nothing,
                Err(e) => AssignmentAction::Failed(e),
            }
        },
        KeyAssignment::SendString(s) => AssignmentAction::WriteStringToPty(copy_string(s)),
        KeyAssignment::SendBytes(b) => AssignmentAction::WriteBytesToPty(copy_bytes(b)),
        KeyAssignment::Hide => AssignmentAction::HideWindow,
        KeyAssignment::Show => AssignmentAction::ShowWindow,
        KeyAssignment::CloseCurrentTab => {
            session.close_current_tab(window_id);
            AssignmentAction::Nothing
        },
        KeyAssignment::Nop => AssignmentAction::Nothing,
    }
}

/// A copy of a string with the same characters.
fn copy_string(s: &String) -> (r: String)
    ensures
        r@ == s@,
{
    s.as_str().to_owned()
}

/// A copy of a byte vector with the same bytes.
fn copy_bytes(b: &Vec<u8>) -> (r: Vec<u8>)
    ensures
        r@ == b@,
{
    let mut out: Vec<u8> = Vec::new();
    let n = b.len();
    let mut i: usize = 0;
    while i < n
        invariant
            n == b@.len(),
            0 <= i <= n,
            out@ =~= b@.subrange(0, i as int),
        decreases n - i,
    {
        out.push(b[i]);
        i = i + 1;
    }
    proof {
        assert(out@ =~= b@);
    }
    out
}

} // verus!
