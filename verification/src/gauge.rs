//! The gauge that shows progress and volume: a line of one cell per
//! column, filled from the left, either as a bar or as a waveform.
//!
//! Ratios are in millionths, amplitudes in thousandths.

use vstd::prelude::*;
use crate::theme::Color;

verus! {

/// A ratio of one, in millionths.
pub const WHOLE: u32 = 1_000_000;

/// A gauge and what it shows.
pub struct RoundedGauge<'a> {
    ratio: u32,
    label: String,
    filled_color: Color,
    overflow_at: Option<u32>,
    overflow_color: Color,
    waveform: Option<&'a Vec<u16>>,
}

/// One cell of a gauge.
#[derive(Clone, Copy, PartialEq, Eq, Structural, Debug)]
pub struct GaugeCell {
    pub ch: char,
    pub fg: Color,
}

/// Number of columns that a ratio fills of a width, rounded to the nearest column.
pub open spec fn columns_of(ratio: u32, width: int) -> int {
    (ratio * width + 500_000) / 1_000_000
}

/// The block character for an amplitude in thousandths: a blank for
/// silence, and else one of eight heights.
pub open spec fn block_index(amp: u16) -> int {
    if amp == 0 {
        0
    } else if (7 * amp + 500) / 1000 + 1 > 8 {
        8
    } else {
        (7 * amp + 500) / 1000 + 1
    }
}

/// The block characters, from a blank to a full block.
pub open spec fn block_char(i: int) -> char {
    if i <= 0 {
        ' '
    } else if i == 1 {
        '\u{2581}'
    } else if i == 2 {
        '\u{2582}'
    } else if i == 3 {
        '\u{2583}'
    } else if i == 4 {
        '\u{2584}'
    } else if i == 5 {
        '\u{2585}'
    } else if i == 6 {
        '\u{2586}'
    } else if i == 7 {
        '\u{2587}'
    } else {
        '\u{2588}'
    }
}

/// The largest of the amplitudes `wf[from..to]`.
pub open spec fn peak(wf: Seq<u16>, from: int, to: int) -> u16
    decreases to - from,
{
    if from >= to {
        0
    } else {
        let rest = peak(wf, from, to - 1);
        if wf[to - 1] > rest {
            wf[to - 1]
        } else {
            rest
        }
    }
}

/// The amplitude that column `col` of a waveform `width` columns wide
/// shows: the largest one of its share of the waveform.
pub open spec fn column_amp(wf: Seq<u16>, col: int, width: int) -> u16 {
    let start = col * wf.len() / width;
    let end = if (col + 1) * wf.len() / width > wf.len() {
        wf.len() as int
    } else {
        (col + 1) * wf.len() / width
    };
    if start < end {
        peak(wf, start, end)
    } else if 0 <= start < wf.len() {
        wf[start]
    } else {
        0
    }
}

/// The character of a column of the bar: thick where it is filled, thin
/// where it is not, with rounded ends.
pub open spec fn bar_char(col: int, filled: int, width: int) -> char {
    if filled == 0 {
        if col == 0 {
            '\u{2576}'
        } else if col == width - 1 {
            '\u{2574}'
        } else {
            '\u{2500}'
        }
    } else if col < filled {
        if col == 0 {
            '\u{257A}'
        } else if col == filled - 1 && filled < width {
            '\u{2578}'
        } else {
            '\u{2501}'
        }
    } else {
        if col == width - 1 {
            '\u{2574}'
        } else {
            '\u{2500}'
        }
    }
}

impl<'a> RoundedGauge<'a> {
    /// The ratio shown, in millionths.
    pub closed spec fn spec_ratio(&self) -> u32 {
        self.ratio
    }

    pub closed spec fn spec_label(&self) -> Seq<char> {
        self.label@
    }

    pub closed spec fn spec_filled_color(&self) -> Color {
        self.filled_color
    }

    /// The ratio beyond which the gauge shows the overflow colour.
    pub closed spec fn spec_overflow_at(&self) -> Option<u32> {
        self.overflow_at
    }

    pub closed spec fn spec_overflow_color(&self) -> Color {
        self.overflow_color
    }

    /// The waveform shown instead of a bar.
    pub closed spec fn spec_waveform(&self) -> Option<Seq<u16>> {
        match self.waveform {
            Some(wf) => Some(wf@),
            None => None,
        }
    }

    /// A gauge that shows `ratio`, in millionths and no more than one.
    pub fn new(ratio: u32, label: String, filled_color: Color) -> (g: Self)
        ensures
            g.spec_ratio() == (if ratio > WHOLE {
                WHOLE
            } else {
                ratio
            }),
            g.spec_label() == label@,
            g.spec_filled_color() == filled_color,
            g.spec_overflow_at() is None,
            g.spec_overflow_color() == Color::Red,
            g.spec_waveform() is None,
    {
        RoundedGauge {
            ratio: if ratio > WHOLE {
                WHOLE
            } else {
                ratio
            },
            label,
            filled_color,
            overflow_at: None,
            overflow_color: Color::Red,
            waveform: None,
        }
    }

    /// Shows a waveform, with amplitudes in thousandths, instead of a bar.
    pub fn waveform(self, wf: &'a Vec<u16>) -> (g: Self)
        ensures
            g.spec_waveform() == Some(wf@),
            g.spec_ratio() == self.spec_ratio(),
            g.spec_label() == self.spec_label(),
            g.spec_filled_color() == self.spec_filled_color(),
            g.spec_overflow_at() == self.spec_overflow_at(),
            g.spec_overflow_color() == self.spec_overflow_color(),
    {
        RoundedGauge {
            ratio: self.ratio,
            label: self.label,
            filled_color: self.filled_color,
            overflow_at: self.overflow_at,
            overflow_color: self.overflow_color,
            waveform: Some(wf),
        }
    }

    /// Shows what lies beyond `threshold`, in millionths, in another colour.
    pub fn overflow(self, threshold: u32, color: Color) -> (g: Self)
        ensures
            g.spec_overflow_at() == Some(threshold),
            g.spec_overflow_color() == color,
            g.spec_ratio() == self.spec_ratio(),
            g.spec_label() == self.spec_label(),
            g.spec_filled_color() == self.spec_filled_color(),
            g.spec_waveform() == self.spec_waveform(),
    {
        RoundedGauge {
            ratio: self.ratio,
            label: self.label,
            filled_color: self.filled_color,
            overflow_at: Some(threshold),
            overflow_color: color,
            waveform: self.waveform,
        }
    }

    /// Number of columns that are filled of `width`.
    pub open spec fn filled(&self, width: int) -> int {
        columns_of(self.spec_ratio(), width)
    }

    /// The column from which on the overflow colour is used.
    pub open spec fn overflow_col(&self, width: int) -> int {
        match self.spec_overflow_at() {
            Some(t) => columns_of(t, width),
            None => width,
        }
    }

    /// The cell in column `col` of a gauge `width` columns wide.
    pub open spec fn spec_cell(&self, col: int, width: int) -> GaugeCell {
        let fill = if col >= self.overflow_col(width) {
            self.spec_overflow_color()
        } else {
            self.spec_filled_color()
        };
        let fg = if col < self.filled(width) {
            fill
        } else {
            Color::DarkGray
        };
        match self.spec_waveform() {
            Some(wf) => GaugeCell { ch: block_char(block_index(column_amp(wf, col, width))), fg },
            None => GaugeCell { ch: bar_char(col, self.filled(width), width), fg },
        }
    }

    /// The cell in column `col` of the gauge when it is `width` columns wide.
    pub fn cell(&self, col: u16, width: u16) -> (c: GaugeCell)
        requires
            col < width,
        ensures
            c == self.spec_cell(col as int, width as int),
    {
        let filled = columns(self.ratio, width);
        let overflow_col = match self.overflow_at {
            Some(t) => columns(t, width),
            None => width as u64,
        };
        let fill = if col as u64 >= overflow_col {
            self.overflow_color
        } else {
            self.filled_color
        };
        let fg = if (col as u64) < filled {
            fill
        } else {
            Color::DarkGray
        };
        match self.waveform {
            Some(wf) => GaugeCell { ch: block_of(amp_of(wf, col, width)), fg },
            None => GaugeCell { ch: bar_of(col as u64, filled, width as u64), fg },
        }
    }

    /// The length of the label in bytes.
    pub closed spec fn spec_label_len(&self) -> nat {
        vstd::utf8::encode_utf8(self.label@).len()
    }

    /// Where the label starts, if it fits: in the middle of the gauge.
    pub fn label_start(&self, width: u16) -> (start: Option<u16>)
        ensures
            start == (if self.spec_label_len() <= width {
                Some(((width - self.spec_label_len()) / 2) as u16)
            } else {
                None
            }),
    {
        let len = self.label.as_str().as_bytes().len();
        if len <= width as usize {
            Some(((width as usize - len) / 2) as u16)
        } else {
            None
        }
    }

    /// The colour of the label in column `col`: bright over the filled part.
    pub fn label_color(&self, col: u16, width: u16) -> (c: Color)
        ensures
            c == (if (col as int) < self.filled(width as int) {
                Color::White
            } else {
                Color::Gray
            }),
    {
        if (col as u64) < columns(self.ratio, width) {
            Color::White
        } else {
            Color::Gray
        }
    }
}

/// Number of columns that a ratio fills of a width.
fn columns(ratio: u32, width: u16) -> (n: u64)
    ensures
        n == columns_of(ratio, width as int),
{
    assert(ratio * width <= 0xFFFF_FFFF * 0xFFFF) by (nonlinear_arith)
        requires
            0 <= ratio <= 0xFFFF_FFFF,
            0 <= width <= 0xFFFF,
    ;
    (ratio as u64 * width as u64 + 500_000) / 1_000_000
}

/// The block character of an amplitude.
fn block_of(amp: u16) -> (c: char)
    ensures
        c == block_char(block_index(amp)),
{
    if amp == 0 {
        return ' ';
    }
    let i = (7 * amp as u32 + 500) / 1000 + 1;
    if i == 1 {
        '\u{2581}'
    } else if i == 2 {
        '\u{2582}'
    } else if i == 3 {
        '\u{2583}'
    } else if i == 4 {
        '\u{2584}'
    } else if i == 5 {
        '\u{2585}'
    } else if i == 6 {
        '\u{2586}'
    } else if i == 7 {
        '\u{2587}'
    } else {
        '\u{2588}'
    }
}

/// The character of a column of the bar.
fn bar_of(col: u64, filled: u64, width: u64) -> (c: char)
    requires
        width >= 1,
    ensures
        c == bar_char(col as int, filled as int, width as int),
{
    if filled == 0 {
        if col == 0 {
            '\u{2576}'
        } else if col == width - 1 {
            '\u{2574}'
        } else {
            '\u{2500}'
        }
    } else if col < filled {
        if col == 0 {
            '\u{257A}'
        } else if col == filled - 1 && filled < width {
            '\u{2578}'
        } else {
            '\u{2501}'
        }
    } else {
        if col == width - 1 {
            '\u{2574}'
        } else {
            '\u{2500}'
        }
    }
}

proof fn lemma_share(col: int, len: int, width: int)
    by (nonlinear_arith)
    requires
        0 <= col < width <= 0xFFFF,
        0 <= len <= 0xFFFF_FFFF_FFFF_FFFF,
    ensures
        0 <= col * len <= 0xFFFF * 0xFFFF_FFFF_FFFF_FFFF,
        0 <= (col + 1) * len <= 0x1_0000 * 0xFFFF_FFFF_FFFF_FFFF,
        0 <= col * len / width <= len,
        col * len / width <= (col + 1) * len / width,
{
    assert(col * len <= width * len);
    assert(col * len <= (col + 1) * len);
}

/// The amplitude that a column of a waveform shows.
fn amp_of(wf: &Vec<u16>, col: u16, width: u16) -> (amp: u16)
    requires
        col < width,
    ensures
        amp == column_amp(wf@, col as int, width as int),
{
    let len = wf.len();
    proof {
        lemma_share(col as int, len as int, width as int);
    }
    let start: usize = (col as u128 * len as u128 / width as u128) as usize;
    let end_wide: u128 = (col as u128 + 1) * len as u128 / width as u128;
    let end: usize = if end_wide > len as u128 {
        len
    } else {
        end_wide as usize
    };
    if start < end {
        let mut best: u16 = 0;
        let mut i: usize = start;
        while i < end
            invariant
                start <= i <= end <= wf@.len(),
                best == peak(wf@, start as int, i as int),
            decreases end - i,
        {
            if wf[i] > best {
                best = wf[i];
            }
            i += 1;
        }
        best
    } else if start < len {
        wf[start]
    } else {
        0
    }
}

} // verus!
