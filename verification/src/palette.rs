//! Colour themes: which shade of which hue each part of the table is drawn in.

use vstd::prelude::*;

verus! {

/// Number of themes that the palette index cycles through.
pub const N_PALETTES: usize = 4;

/// A colour family.
#[derive(Clone, Copy, PartialEq, Eq, Structural, Debug)]
pub enum Hue {
    Slate,
    Blue,
    Emerald,
    Indigo,
    Red,
}

/// One colour: a hue at a lightness level from 50 (lightest) to 950 (darkest).
#[derive(Clone, Copy, PartialEq, Eq, Structural, Debug)]
pub struct Shade {
    pub hue: Hue,
    pub level: u16,
}

/// The colours of every part of the table.
#[derive(Clone, Copy, PartialEq, Eq, Structural, Debug)]
pub struct TableColors {
    pub buffer_bg: Shade,
    pub header_bg: Shade,
    pub header_fg: Shade,
    pub row_fg: Shade,
    pub selected_style_fg: Shade,
    pub normal_row_color: Shade,
    pub alt_row_color: Shade,
    pub footer_border_color: Shade,
}

/// The hue of the theme at `index`: blue, emerald, indigo, red.
pub open spec fn palette_hue(index: usize) -> Hue {
    if index == 0 {
        Hue::Blue
    } else if index == 1 {
        Hue::Emerald
    } else if index == 2 {
        Hue::Indigo
    } else {
        Hue::Red
    }
}

/// The colours of the theme with accent hue `accent`: backgrounds and text in
/// slate, header, selection and footer border in the accent.
pub open spec fn theme(accent: Hue) -> TableColors {
    TableColors {
        buffer_bg: Shade { hue: Hue::Slate, level: 950 },
        header_bg: Shade { hue: accent, level: 900 },
        header_fg: Shade { hue: Hue::Slate, level: 200 },
        row_fg: Shade { hue: Hue::Slate, level: 200 },
        selected_style_fg: Shade { hue: accent, level: 400 },
        normal_row_color: Shade { hue: Hue::Slate, level: 950 },
        alt_row_color: Shade { hue: Hue::Slate, level: 900 },
        footer_border_color: Shade { hue: accent, level: 400 },
    }
}

/// The index after `index`, wrapping to 0 behind the last theme.
pub open spec fn palette_after(index: usize) -> usize {
    if index + 1 >= N_PALETTES {
        0
    } else {
        (index + 1) as usize
    }
}

/// The index before `index`, wrapping to the last theme before 0.
pub open spec fn palette_before(index: usize) -> usize {
    if index == 0 {
        (N_PALETTES - 1) as usize
    } else {
        (index - 1) as usize
    }
}

/// The hue of the theme at `index`.
pub fn palette_at(index: usize) -> (hue: Hue)
    requires
        index < N_PALETTES,
    ensures
        hue == palette_hue(index),
{
    if index == 0 {
        Hue::Blue
    } else if index == 1 {
        Hue::Emerald
    } else if index == 2 {
        Hue::Indigo
    } else {
        Hue::Red
    }
}

impl TableColors {
    /// The colours of the theme with accent hue `color`.
    pub fn new(color: Hue) -> (colors: Self)
        ensures
            colors == theme(color),
    {
        TableColors {
            buffer_bg: Shade { hue: Hue::Slate, level: 950 },
            header_bg: Shade { hue: color, level: 900 },
            header_fg: Shade { hue: Hue::Slate, level: 200 },
            row_fg: Shade { hue: Hue::Slate, level: 200 },
            selected_style_fg: Shade { hue: color, level: 400 },
            normal_row_color: Shade { hue: Hue::Slate, level: 950 },
            alt_row_color: Shade { hue: Hue::Slate, level: 900 },
            footer_border_color: Shade { hue: color, level: 400 },
        }
    }
}

} // verus!
