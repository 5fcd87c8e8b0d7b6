//! Rectangles on the screen, and what the mouse points at.

use vstd::prelude::*;
use crate::eq::NUM_BANDS;

verus! {

/// A rectangle of terminal cells.
#[derive(Clone, Copy, PartialEq, Eq, Structural, Debug)]
pub struct Rect {
    pub x: u16,
    pub y: u16,
    pub width: u16,
    pub height: u16,
}

impl Rect {
    /// True if the cell in column `col` and row `row` lies in the rectangle.
    pub open spec fn contains(self, col: u16, row: u16) -> bool {
        self.x <= col && col < self.x + self.width && self.y <= row && row < self.y + self.height
    }
}

/// Tells whether the cell in column `col` and row `row` lies in `rect`.
pub fn hit(rect: Rect, col: u16, row: u16) -> (inside: bool)
    ensures
        inside == rect.contains(col, row),
{
    col >= rect.x && (col as u32) < rect.x as u32 + rect.width as u32 && row >= rect.y && (
    row as u32) < rect.y as u32 + rect.height as u32
}

/// The smaller of two numbers.
pub open spec fn min_of(a: int, b: int) -> int {
    if a <= b {
        a
    } else {
        b
    }
}

/// The larger of two numbers.
pub open spec fn max_of(a: int, b: int) -> int {
    if a >= b {
        a
    } else {
        b
    }
}

/// A box of the wanted size in the middle of an area that starts at the
/// origin; it is no larger than the area.
pub open spec fn centered(area_width: u16, area_height: u16, width: u16, height: u16) -> Rect {
    let w = min_of(width as int, area_width as int);
    let h = min_of(height as int, area_height as int);
    Rect {
        x: ((area_width - w) / 2) as u16,
        y: ((area_height - h) / 2) as u16,
        width: w as u16,
        height: h as u16,
    }
}

/// The box of a pop-up of the wanted size in the middle of the screen.
pub fn centered_popup(area_width: u16, area_height: u16, width: u16, height: u16) -> (r: Rect)
    ensures
        r == centered(area_width, area_height, width, height),
{
    let w = if width <= area_width {
        width
    } else {
        area_width
    };
    let h = if height <= area_height {
        height
    } else {
        area_height
    };
    Rect { x: (area_width - w) / 2, y: (area_height - h) / 2, width: w, height: h }
}

/// The box of the file browser: four fifths of the screen each way, at
/// least 40 by 10 cells, and no larger than the screen.
pub fn browser_popup(area_width: u16, area_height: u16) -> (r: Rect)
    ensures
        r == centered(
            area_width,
            area_height,
            max_of(area_width as int * 80 / 100, 40) as u16,
            max_of(area_height as int * 80 / 100, 10) as u16,
        ),
{
    let w = (area_width as u32 * 80 / 100) as u16;
    let h = (area_height as u32 * 80 / 100) as u16;
    centered_popup(
        area_width,
        area_height,
        if w >= 40 {
            w
        } else {
            40
        },
        if h >= 10 {
            h
        } else {
            10
        },
    )
}

/// The column within a bordered box that a screen column stands for:
/// 0 for the first column inside the border, and for everything left of it.
pub open spec fn inner_col(region: Rect, col: u16) -> int {
    max_of(col - (region.x + 1), 0)
}

/// The width of a bordered box inside its border.
pub open spec fn inner_width(region: Rect) -> int {
    max_of(region.width - 2, 0)
}

/// The column within a bordered box that a screen column stands for.
pub fn inner_col_of(region: Rect, col: u16) -> (c: u16)
    ensures
        c == inner_col(region, col),
{
    let left = region.x as u32 + 1;
    if col as u32 > left {
        (col as u32 - left) as u16
    } else {
        0
    }
}

/// The width of a bordered box inside its border.
pub fn inner_width_of(region: Rect) -> (w: u16)
    ensures
        w == inner_width(region),
{
    if region.width >= 2 {
        region.width - 2
    } else {
        0
    }
}

/// The place in a track that a column of the progress bar stands for:
/// the same part of the duration as the column is of the width.
pub open spec fn progress_target(region: Rect, col: u16, total_ms: u64) -> Option<u64> {
    if inner_width(region) > 0 {
        Some(
            min_of(total_ms as int * inner_col(region, col) / inner_width(region), u64::MAX as int)
                as u64,
        )
    } else {
        None
    }
}

/// The place to seek to for a click on the progress bar. `None` if the bar has no width.
pub fn click_seek_target(region: Rect, col: u16, total_ms: u64) -> (target: Option<u64>)
    ensures
        target == progress_target(region, col, total_ms),
{
    let w = inner_width_of(region);
    if w == 0 {
        return None;
    }
    let x = inner_col_of(region, col);
    assert(total_ms as int * x as int <= 0xFFFF_FFFF_FFFF_FFFF * 0xFFFF) by (nonlinear_arith)
        requires
            0 <= total_ms <= 0xFFFF_FFFF_FFFF_FFFF,
            0 <= x <= 0xFFFF,
    ;
    let t: u128 = total_ms as u128 * x as u128 / w as u128;
    if t > u64::MAX as u128 {
        Some(u64::MAX)
    } else {
        Some(t as u64)
    }
}

/// The volume in steps of 0.05 that a column of the volume bar stands
/// for: the full width is 2.0.
pub open spec fn volume_at(region: Rect, col: u16) -> Option<u8> {
    if inner_width(region) > 0 {
        Some(
            min_of((80 * inner_col(region, col) + inner_width(region)) / (2 * inner_width(region)), 40)
                as u8,
        )
    } else {
        None
    }
}

/// The volume to set for a click on the volume bar. `None` if the bar has no width.
pub fn click_volume(region: Rect, col: u16) -> (steps: Option<u8>)
    ensures
        steps == volume_at(region, col),
{
    let w = inner_width_of(region) as u32;
    if w == 0 {
        return None;
    }
    let x = inner_col_of(region, col) as u32;
    let s = (80 * x + w) / (2 * w);
    if s > 40 {
        Some(40)
    } else {
        Some(s as u8)
    }
}

/// The second of the track that the pointer is over on the progress bar.
pub open spec fn hover_second(region: Rect, col: u16, total_ms: u64) -> Option<u64> {
    if inner_width(region) > 0 && total_ms > 0 {
        let x = min_of(inner_col(region, col), inner_width(region));
        Some((total_ms as int * x / inner_width(region) / 1000) as u64)
    } else {
        None
    }
}

/// The second of the track that the pointer is over on the progress
/// bar. `None` if the bar has no width or the track no duration.
pub fn hover_seconds(region: Rect, col: u16, total_ms: u64) -> (secs: Option<u64>)
    ensures
        secs == hover_second(region, col, total_ms),
{
    let w = inner_width_of(region);
    if w == 0 || total_ms == 0 {
        return None;
    }
    let col_in = inner_col_of(region, col);
    let x = if col_in > w {
        w
    } else {
        col_in
    };
    assert(total_ms as int * x as int <= 0xFFFF_FFFF_FFFF_FFFF * 0xFFFF) by (nonlinear_arith)
        requires
            0 <= total_ms <= 0xFFFF_FFFF_FFFF_FFFF,
            0 <= x <= 0xFFFF,
    ;
    assert(total_ms as int * x as int / w as int <= total_ms) by (nonlinear_arith)
        requires
            0 <= total_ms,
            0 <= x <= w,
            w > 0,
    ;
    let t: u128 = total_ms as u128 * x as u128 / w as u128 / 1000;
    Some(t as u64)
}

/// The volume in percent that the pointer is over on the volume bar.
pub open spec fn hover_percent(region: Rect, col: u16) -> Option<u16> {
    if inner_width(region) > 0 {
        let x = min_of(inner_col(region, col), inner_width(region));
        Some(((400 * x + inner_width(region)) / (2 * inner_width(region))) as u16)
    } else {
        None
    }
}

/// The volume in percent, from 0 to 200, that the pointer is over on
/// the volume bar. `None` if the bar has no width.
pub fn hover_volume_percent(region: Rect, col: u16) -> (pct: Option<u16>)
    ensures
        pct == hover_percent(region, col),
{
    let w = inner_width_of(region) as u32;
    if w == 0 {
        return None;
    }
    let col_in = inner_col_of(region, col) as u32;
    let x = if col_in > w {
        w
    } else {
        col_in
    };
    assert((400 * x + w) / (2 * w) <= 200) by (nonlinear_arith)
        requires
            0 <= x <= w,
            w > 0,
    ;
    Some(((400 * x + w) / (2 * w)) as u16)
}

/// Where a label of `len` columns starts that hangs over the pointer:
/// centred on the pointer, but within the region.
pub open spec fn tooltip_start(region: Rect, col: u16, len: u16) -> u16 {
    let centred = max_of(col - len / 2, 0);
    let from = max_of(centred, region.x as int);
    let last = min_of(region.x + max_of(region.width - len, 0), u16::MAX as int);
    min_of(from, last) as u16
}

/// The box of a label of `len` columns that hangs over the pointer on
/// the top border of a region.
pub fn tooltip(region: Rect, col: u16, len: u16) -> (r: Rect)
    ensures
        r == (Rect { x: tooltip_start(region, col, len), y: region.y, width: len, height: 1 }),
{
    let half = len / 2;
    let centred: u16 = if col >= half {
        col - half
    } else {
        0
    };
    let from: u16 = if centred >= region.x {
        centred
    } else {
        region.x
    };
    let slack: u32 = if region.width >= len {
        (region.width - len) as u32
    } else {
        0
    };
    let last_wide: u32 = region.x as u32 + slack;
    let last: u16 = if last_wide > 0xFFFF {
        0xFFFF
    } else {
        last_wide as u16
    };
    let x = if from <= last {
        from
    } else {
        last
    };
    Rect { x, y: region.y, width: len, height: 1 }
}

/// The band of the equalizer in a screen column: the bands stand side
/// by side, two columns each, from the second column of the panel on.
pub open spec fn band_at(inner: Rect, col: u16) -> Option<usize> {
    if inner.x + 1 <= col && col < inner.x + 1 + 2 * NUM_BANDS {
        Some(((col - (inner.x + 1)) / 2) as usize)
    } else {
        None
    }
}

/// The band of the equalizer that a screen column belongs to.
pub fn eq_band_at(inner: Rect, col: u16) -> (band: Option<usize>)
    ensures
        band == band_at(inner, col),
        band matches Some(b) ==> b < NUM_BANDS,
{
    let start = inner.x as u32 + 1;
    let end = start + 2 * NUM_BANDS as u32;
    if col as u32 >= start && (col as u32) < end {
        Some(((col as u32 - start) / 2) as usize)
    } else {
        None
    }
}

/// The band that the pointer hovers over: the band of its column, while
/// it is within the rows of the panel.
pub fn eq_hover_band(inner: Rect, col: u16, row: u16) -> (band: Option<usize>)
    ensures
        band == (if inner.y <= row && row < inner.y + inner.height {
            band_at(inner, col)
        } else {
            None
        }),
{
    if row >= inner.y && (row as u32) < inner.y as u32 + inner.height as u32 {
        eq_band_at(inner, col)
    } else {
        None
    }
}

/// The band that the wheel turns: the band under the pointer, or else the selected one.
pub fn eq_scroll_band(inner: Rect, col: u16, selected: usize) -> (band: usize)
    ensures
        band == (match band_at(inner, col) {
            Some(b) => b,
            None => selected,
        }),
{
    match eq_band_at(inner, col) {
        Some(b) => b,
        None => selected,
    }
}

/// The scroll position of the lyrics, kept within the text: the last
/// line can be brought to the bottom of the panel, and no further.
pub fn clamp_scroll(scroll: usize, total_lines: usize, area_height: u16) -> (s: usize)
    ensures
        s == min_of(scroll as int, max_of(total_lines - max_of(area_height - 2, 0), 0)),
{
    let visible: usize = if area_height >= 2 {
        (area_height - 2) as usize
    } else {
        0
    };
    let max_scroll = if total_lines >= visible {
        total_lines - visible
    } else {
        0
    };
    if scroll <= max_scroll {
        scroll
    } else {
        max_scroll
    }
}

/// The character in row `i` of the folded lyrics panel, which shows the
/// word "Lyrics" top down in the middle of its height.
pub open spec fn collapsed_char(i: int, inner_h: int) -> char {
    let pad = max_of(inner_h - 6, 0) / 2;
    if pad <= i && i < pad + 6 {
        "Lyrics"@[i - pad]
    } else {
        ' '
    }
}

/// The character in row `i` of the folded lyrics panel `inner_h` rows high.
pub fn collapsed_lyrics_char(i: usize, inner_h: usize) -> (c: char)
    ensures
        c == collapsed_char(i as int, inner_h as int),
{
    let pad = if inner_h >= 6 {
        (inner_h - 6) / 2
    } else {
        0
    };
    proof {
        reveal_strlit("Lyrics");
    }
    if i >= pad && i - pad < 6 {
        let k = i - pad;
        if k == 0 {
            'L'
        } else if k == 1 {
            'y'
        } else if k == 2 {
            'r'
        } else if k == 3 {
            'i'
        } else if k == 4 {
            'c'
        } else {
            's'
        }
    } else {
        ' '
    }
}

} // verus!
