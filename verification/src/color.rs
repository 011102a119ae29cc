//! Color resolution: palette lookup, the bold-brightening rule, reverse
//! video, and the cursor/selection override rules.

use vstd::prelude::*;

verus! {

/// A fully opaque sRGB color as the terminal model reports it.
#[derive(Clone, Copy, Debug, PartialEq, Eq, Structural)]
pub struct RgbColor {
    pub red: u8,
    pub green: u8,
    pub blue: u8,
}

/// A color of the window surface, with an alpha channel.
#[derive(Clone, Copy, Debug, PartialEq, Eq, Structural)]
pub struct Color {
    pub red: u8,
    pub green: u8,
    pub blue: u8,
    pub alpha: u8,
}

/// A cell's color attribute: the configured default, an indexed palette
/// entry, or a direct true color.
#[derive(Clone, Copy, Debug, PartialEq, Eq, Structural)]
pub enum ColorAttribute {
    Default,
    PaletteIndex(u8),
    TrueColor(RgbColor),
}

/// The terminal color palette: the configured defaults, the cursor and
/// selection colors, and the 256 indexed colors.
pub struct ColorPalette {
    pub foreground: RgbColor,
    pub background: RgbColor,
    pub cursor_fg: RgbColor,
    pub cursor_bg: RgbColor,
    pub selection_fg: RgbColor,
    pub selection_bg: RgbColor,
    pub colors: Vec<RgbColor>,
}

impl ColorPalette {
    /// A palette always carries exactly 256 indexed colors.
    pub open spec fn wf(self) -> bool {
        self.colors@.len() == 256
    }

    /// Resolution of an attribute against a default color.
    pub open spec fn spec_resolve(self, attr: ColorAttribute, default: RgbColor) -> RgbColor {
        match attr {
            ColorAttribute::Default => default,
            ColorAttribute::PaletteIndex(i) => self.colors@[i as int],
            ColorAttribute::TrueColor(c) => c,
        }
    }

    /// Resolves a foreground attribute: the configured foreground for
    /// `Default`, an indexed color, or a direct color.
    pub fn resolve_fg(&self, attr: ColorAttribute) -> (r: RgbColor)
        requires
            self.wf(),
        ensures
            r == self.spec_resolve(attr, self.foreground),
    {
        match attr {
            ColorAttribute::Default => self.foreground,
            ColorAttribute::PaletteIndex(i) => self.colors[i as usize],
            ColorAttribute::TrueColor(c) => c,
        }
    }

    /// Resolves a background attribute against the configured background.
    pub fn resolve_bg(&self, attr: ColorAttribute) -> (r: RgbColor)
        requires
            self.wf(),
        ensures
            r == self.spec_resolve(attr, self.background),
    {
        match attr {
            ColorAttribute::Default => self.background,
            ColorAttribute::PaletteIndex(i) => self.colors[i as usize],
            ColorAttribute::TrueColor(c) => c,
        }
    }
}

/// Lifts a terminal color to a fully opaque window color.
pub fn rgbcolor_to_window_color(color: RgbColor) -> (r: Color)
    ensures
        r.red == color.red,
        r.green == color.green,
        r.blue == color.blue,
        r.alpha == 0xff,
{
    Color { red: color.red, green: color.green, blue: color.blue, alpha: 0xff }
}

/// The palette-brightening rule, as a value: the foreground attribute a
/// cluster resolves through, after the bold shift.  A low palette index
/// (0 to 7) on a bold cell is promoted to its bright counterpart (8 to 15);
/// indices 8 and above are never shifted.
pub open spec fn spec_brightened_attr(attr: ColorAttribute, bold: bool) -> ColorAttribute {
    match attr {
        ColorAttribute::PaletteIndex(i) => if i < 8 && bold {
            ColorAttribute::PaletteIndex((i + 8) as u8)
        } else {
            attr
        },
        _ => attr,
    }
}

/// Resolves a cluster's foreground color.  A `Default` attribute takes the
/// style's configured foreground when the style has one, else the palette
/// default; a low palette index is brightened on bold cells; anything else
/// resolves directly.
pub fn resolve_cluster_fg(
    palette: &ColorPalette,
    attr: ColorAttribute,
    bold: bool,
    style_foreground: Option<RgbColor>,
) -> (r: RgbColor)
    requires
        palette.wf(),
    ensures
        r == (match attr {
            ColorAttribute::Default => match style_foreground {
                Some(fg) => fg,
                None => palette.foreground,
            },
            _ => palette.spec_resolve(spec_brightened_attr(attr, bold), palette.foreground),
        }),
{
    match attr {
        ColorAttribute::Default => {
            match style_foreground {
                Some(fg) => fg,
                None => palette.resolve_fg(attr),
            }
        },
        ColorAttribute::PaletteIndex(i) => {
            let idx: u8 = if i < 8 && bold {
                i + 8
            } else {
                i
            };
            palette.resolve_fg(ColorAttribute::PaletteIndex(idx))
        },
        ColorAttribute::TrueColor(c) => palette.resolve_fg(ColorAttribute::TrueColor(c)),
    }
}

/// The cursor and selection override rule for one cell: the cursor cell
/// takes the cursor colors, a selected cell takes the selection colors, and
/// any other cell keeps the colors handed in.  Cursor beats selection.
pub open spec fn spec_cell_fg_bg(
    selected: bool,
    is_cursor: bool,
    fg: Color,
    bg: Color,
    palette: ColorPalette,
) -> (Color, Color) {
    if is_cursor {
        (
            Color {
                red: palette.cursor_fg.red,
                green: palette.cursor_fg.green,
                blue: palette.cursor_fg.blue,
                alpha: 0xff,
            },
            Color {
                red: palette.cursor_bg.red,
                green: palette.cursor_bg.green,
                blue: palette.cursor_bg.blue,
                alpha: 0xff,
            },
        )
    } else if selected {
        (
            Color {
                red: palette.selection_fg.red,
                green: palette.selection_fg.green,
                blue: palette.selection_fg.blue,
                alpha: 0xff,
            },
            Color {
                red: palette.selection_bg.red,
                green: palette.selection_bg.green,
                blue: palette.selection_bg.blue,
                alpha: 0xff,
            },
        )
    } else {
        (fg, bg)
    }
}

/// Position of the cursor in the grid, as the terminal model reports it.
#[derive(Clone, Copy, Debug, PartialEq, Eq, Structural)]
pub struct CursorPosition {
    pub x: usize,
    pub y: i64,
}

/// Applies the cursor and selection overrides to a cell's colors.
/// `selection` is the selected column range of the line, half open.
pub fn compute_cell_fg_bg(
    line_idx: usize,
    cell_idx: usize,
    cursor: &CursorPosition,
    selection_start: usize,
    selection_end: usize,
    fg_color: Color,
    bg_color: Color,
    palette: &ColorPalette,
) -> (r: (Color, Color))
    requires
        line_idx <= i64::MAX,
    ensures
        r == spec_cell_fg_bg(
            selection_start <= cell_idx < selection_end,
            line_idx == cursor.y && cursor.x == cell_idx,
            fg_color,
            bg_color,
            *palette,
        ),
{
    let selected = selection_start <= cell_idx && cell_idx < selection_end;
    let is_cursor = (line_idx as i64) == cursor.y && cursor.x == cell_idx;
    if is_cursor {
        (rgbcolor_to_window_color(palette.cursor_fg), rgbcolor_to_window_color(palette.cursor_bg))
    } else if selected {
        (
            rgbcolor_to_window_color(palette.selection_fg),
            rgbcolor_to_window_color(palette.selection_bg),
        )
    } else {
        (fg_color, bg_color)
    }
}

} // verus!
