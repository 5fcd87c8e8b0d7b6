//! Colours and the themes to choose from.

use vstd::prelude::*;

verus! {

/// A colour of the terminal.
#[derive(Clone, Copy, PartialEq, Eq, Structural, Debug)]
pub enum Color {
    /// The colour that the terminal uses by itself.
    Reset,
    Black,
    Red,
    Green,
    Yellow,
    Cyan,
    Gray,
    DarkGray,
    White,
    /// A colour by its red, green and blue parts.
    Rgb(u8, u8, u8),
}

/// The colours of the player.
#[derive(Clone, Copy, Debug)]
pub struct Theme {
    pub name: &'static str,
    /// Selections and titles.
    pub accent: Color,
    pub secondary: Color,
    /// Gain above zero, and the volume up to 1.0.
    pub positive: Color,
    /// Gain below zero, and the volume beyond 1.0.
    pub negative: Color,
    pub text: Color,
    pub dimmed: Color,
}

/// Number of themes.
pub const THEME_COUNT: usize = 13;

/// A theme with white text and dark grey for what is dimmed.
pub open spec fn palette_of(
    name: &'static str,
    accent: Color,
    secondary: Color,
    positive: Color,
    negative: Color,
) -> Theme {
    Theme { name, accent, secondary, positive, negative, text: Color::White, dimmed: Color::DarkGray }
}

/// Theme `index` of the table; the first theme stands in for one that does not exist.
pub open spec fn theme_of(index: int) -> Theme {
    if index < 1 {
        palette_of("Default", Color::Cyan, Color::Yellow, Color::Green, Color::Red)
    } else if index == 1 {
        palette_of("Dracula", Color::Rgb(189, 147, 249), Color::Rgb(255, 121, 198), Color::Rgb(80, 250, 123), Color::Rgb(255, 85, 85))
    } else if index == 2 {
        palette_of("Nord", Color::Rgb(136, 192, 208), Color::Rgb(235, 203, 139), Color::Rgb(163, 190, 140), Color::Rgb(191, 97, 106))
    } else if index == 3 {
        palette_of("Gruvbox", Color::Rgb(214, 153, 62), Color::Rgb(250, 189, 47), Color::Rgb(152, 151, 26), Color::Rgb(204, 36, 29))
    } else if index == 4 {
        palette_of("Rose Pine", Color::Rgb(235, 188, 186), Color::Rgb(246, 193, 119), Color::Rgb(156, 207, 216), Color::Rgb(235, 111, 146))
    } else if index == 5 {
        palette_of("Catppuccin", Color::Rgb(203, 166, 247), Color::Rgb(249, 226, 175), Color::Rgb(166, 227, 161), Color::Rgb(243, 139, 168))
    } else if index == 6 {
        palette_of("Tokyo Night", Color::Rgb(122, 162, 247), Color::Rgb(224, 175, 104), Color::Rgb(158, 206, 106), Color::Rgb(247, 118, 142))
    } else if index == 7 {
        palette_of("Solarized", Color::Rgb(38, 139, 210), Color::Rgb(181, 137, 0), Color::Rgb(133, 153, 0), Color::Rgb(220, 50, 47))
    } else if index == 8 {
        palette_of("Monokai", Color::Rgb(102, 217, 239), Color::Rgb(230, 219, 116), Color::Rgb(166, 226, 46), Color::Rgb(249, 38, 114))
    } else if index == 9 {
        palette_of("One Dark", Color::Rgb(97, 175, 239), Color::Rgb(229, 192, 123), Color::Rgb(152, 195, 121), Color::Rgb(224, 108, 117))
    } else if index == 10 {
        palette_of("Kanagawa", Color::Rgb(126, 156, 216), Color::Rgb(230, 195, 132), Color::Rgb(152, 187, 108), Color::Rgb(255, 93, 98))
    } else if index == 11 {
        palette_of("Everforest", Color::Rgb(127, 187, 179), Color::Rgb(219, 188, 127), Color::Rgb(167, 192, 128), Color::Rgb(230, 126, 128))
    } else if index == 12 {
        palette_of("Synthwave", Color::Rgb(255, 126, 219), Color::Rgb(254, 222, 93), Color::Rgb(114, 241, 184), Color::Rgb(254, 68, 80))
    } else {
        palette_of("Default", Color::Cyan, Color::Yellow, Color::Green, Color::Red)
    }
}

/// A theme with white text and dark grey for what is dimmed.
fn palette(
    name: &'static str,
    accent: Color,
    secondary: Color,
    positive: Color,
    negative: Color,
) -> (t: Theme)
    ensures
        t == palette_of(name, accent, secondary, positive, negative),
{
    Theme { name, accent, secondary, positive, negative, text: Color::White, dimmed: Color::DarkGray }
}

/// Theme `index`; the first theme for an index beyond the last.
pub fn theme(index: usize) -> (t: Theme)
    ensures
        t == theme_of(index as int),
{
    match index {
        1 => palette("Dracula", Color::Rgb(189, 147, 249), Color::Rgb(255, 121, 198), Color::Rgb(80, 250, 123), Color::Rgb(255, 85, 85)),
        2 => palette("Nord", Color::Rgb(136, 192, 208), Color::Rgb(235, 203, 139), Color::Rgb(163, 190, 140), Color::Rgb(191, 97, 106)),
        3 => palette("Gruvbox", Color::Rgb(214, 153, 62), Color::Rgb(250, 189, 47), Color::Rgb(152, 151, 26), Color::Rgb(204, 36, 29)),
        4 => palette("Rose Pine", Color::Rgb(235, 188, 186), Color::Rgb(246, 193, 119), Color::Rgb(156, 207, 216), Color::Rgb(235, 111, 146)),
        5 => palette("Catppuccin", Color::Rgb(203, 166, 247), Color::Rgb(249, 226, 175), Color::Rgb(166, 227, 161), Color::Rgb(243, 139, 168)),
        6 => palette("Tokyo Night", Color::Rgb(122, 162, 247), Color::Rgb(224, 175, 104), Color::Rgb(158, 206, 106), Color::Rgb(247, 118, 142)),
        7 => palette("Solarized", Color::Rgb(38, 139, 210), Color::Rgb(181, 137, 0), Color::Rgb(133, 153, 0), Color::Rgb(220, 50, 47)),
        8 => palette("Monokai", Color::Rgb(102, 217, 239), Color::Rgb(230, 219, 116), Color::Rgb(166, 226, 46), Color::Rgb(249, 38, 114)),
        9 => palette("One Dark", Color::Rgb(97, 175, 239), Color::Rgb(229, 192, 123), Color::Rgb(152, 195, 121), Color::Rgb(224, 108, 117)),
        10 => palette("Kanagawa", Color::Rgb(126, 156, 216), Color::Rgb(230, 195, 132), Color::Rgb(152, 187, 108), Color::Rgb(255, 93, 98)),
        11 => palette("Everforest", Color::Rgb(127, 187, 179), Color::Rgb(219, 188, 127), Color::Rgb(167, 192, 128), Color::Rgb(230, 126, 128)),
        12 => palette("Synthwave", Color::Rgb(255, 126, 219), Color::Rgb(254, 222, 93), Color::Rgb(114, 241, 184), Color::Rgb(254, 68, 80)),
        _ => palette("Default", Color::Cyan, Color::Yellow, Color::Green, Color::Red),
    }
}

} // verus!
