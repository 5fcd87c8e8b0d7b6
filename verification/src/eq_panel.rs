//! The panel of the equalizer: which band is selected, and what its
//! bars, its axis and its labels show.

use vstd::prelude::*;
use crate::eq::{BAND_FREQS, NUM_BANDS};
use crate::text::{chars_of, digit_char, nat_text, push_char, push_chars, push_nat};

verus! {

/// Width of the bars in columns: two for every band.
pub const BAR_WIDTH: usize = 64;

/// The band to the left of the selected one; the first band stays.
pub fn select_left(selected: usize) -> (band: usize)
    ensures
        band == (if selected > 0 {
            selected - 1
        } else {
            0
        }),
{
    if selected > 0 {
        selected - 1
    } else {
        0
    }
}

/// The band to the right of the selected one; the last band stays.
pub fn select_right(selected: usize) -> (band: usize)
    ensures
        band == (if selected + 1 < NUM_BANDS {
            selected + 1
        } else {
            NUM_BANDS - 1
        }),
{
    if selected < NUM_BANDS - 1 {
        selected + 1
    } else {
        NUM_BANDS - 1
    }
}

/// `n` divided by `unit` and rounded to the nearest whole, halves to the even side.
pub open spec fn round_half_even(n: nat, unit: nat) -> nat {
    let q = n / unit;
    let r = n % unit;
    if 2 * r > unit || (2 * r == unit && q % 2 == 1) {
        q + 1
    } else {
        q
    }
}

/// `n` divided by `unit` and rounded to the nearest whole, halves to the even side.
fn rounded(n: u32, unit: u32) -> (r: u32)
    requires
        2 <= unit <= 10000,
    ensures
        r == round_half_even(n as nat, unit as nat),
{
    let q = n / unit;
    let r = n % unit;
    assert(q <= n / 2) by (nonlinear_arith)
        requires
            q == n / unit,
            unit >= 2,
            n >= 0,
    ;
    if 2 * r > unit || (2 * r == unit && q % 2 == 1) {
        q + 1
    } else {
        q
    }
}

/// A frequency in tenths of a hertz as the axis shows it: in hertz
/// below 1 kHz and in kilohertz from there on, whole where it is whole
/// and with one decimal where it is not.
pub open spec fn freq_text(dhz: u32) -> Seq<char> {
    if dhz >= 10000 {
        if dhz % 10000 == 0 {
            nat_text((dhz / 10000) as nat).push('k')
        } else {
            let tenths = round_half_even(dhz as nat, 1000);
            nat_text(tenths / 10) + seq!['.', digit_char((tenths % 10) as int), 'k']
        }
    } else {
        if dhz % 10 == 0 {
            nat_text((dhz / 10) as nat)
        } else {
            nat_text((dhz / 10) as nat) + seq!['.', digit_char((dhz % 10) as int)]
        }
    }
}

/// Appends a frequency as the axis shows it.
fn push_freq(s: &mut String, dhz: u32)
    ensures
        final(s)@ == old(s)@ + freq_text(dhz),
{
    if dhz >= 10000 {
        if dhz % 10000 == 0 {
            push_nat(s, (dhz / 10000) as u64);
            push_char(s, 'k');
        } else {
            let tenths = rounded(dhz, 1000);
            push_nat(s, (tenths / 10) as u64);
            push_char(s, '.');
            push_char(s, ((tenths % 10) as u8 + 48) as char);
            push_char(s, 'k');
        }
    } else {
        push_nat(s, (dhz / 10) as u64);
        if dhz % 10 != 0 {
            push_char(s, '.');
            push_char(s, ((dhz % 10) as u8 + 48) as char);
        }
    }
    proof {
        assert(s@ =~= old(s)@ + freq_text(dhz));
    }
}

/// A frequency, given in tenths of a hertz, as the axis shows it: `31.5`, `800`, `1k`, `12.5k`.
pub fn format_freq(dhz: u32) -> (s: String)
    ensures
        s@ == freq_text(dhz),
{
    let mut s = String::new();
    push_freq(&mut s, dhz);
    proof {
        assert(Seq::<char>::empty() + freq_text(dhz) =~= freq_text(dhz));
    }
    s
}

/// A gain in hundredths of a decibel as the panel shows it: in whole
/// decibels with its sign, `+3`, `-12`, `+0`.
pub open spec fn gain_text(gain: i16) -> Seq<char> {
    if gain >= 0 {
        seq!['+'] + nat_text(round_half_even(gain as nat, 100))
    } else {
        seq!['-'] + nat_text(round_half_even((-gain) as nat, 100))
    }
}

/// Appends a gain as the panel shows it.
fn push_gain(s: &mut String, gain: i16)
    ensures
        final(s)@ == old(s)@ + gain_text(gain),
{
    if gain >= 0 {
        push_char(s, '+');
        push_nat(s, rounded(gain as u32, 100) as u64);
    } else {
        push_char(s, '-');
        push_nat(s, rounded((-(gain as i32)) as u32, 100) as u64);
    }
    proof {
        assert(s@ =~= old(s)@ + gain_text(gain));
    }
}

/// A gain as the panel shows it.
pub fn gain_label(gain: i16) -> (s: String)
    ensures
        s@ == gain_text(gain),
{
    let mut s = String::new();
    push_gain(&mut s, gain);
    proof {
        assert(Seq::<char>::empty() + gain_text(gain) =~= gain_text(gain));
    }
    s
}

/// What the panel says of a band: ` 1k Hz  +3 dB `.
pub fn band_label(band: usize, gain: i16) -> (s: String)
    requires
        band < NUM_BANDS,
    ensures
        s@ == seq![' '] + freq_text(BAND_FREQS[band as int]) + " Hz  "@ + gain_text(gain) + " dB "@,
{
    let mut s = String::new();
    push_char(&mut s, ' ');
    push_freq(&mut s, BAND_FREQS[band]);
    let hz = chars_of(" Hz  ");
    push_chars(&mut s, &hz);
    push_gain(&mut s, gain);
    let db = chars_of(" dB ");
    push_chars(&mut s, &db);
    proof {
        assert(s@ =~= seq![' '] + freq_text(BAND_FREQS[band as int]) + " Hz  "@ + gain_text(gain)
            + " dB "@);
    }
    s
}

/// What a cell of the bars shows.
#[derive(Clone, Copy, PartialEq, Eq, Structural, Debug)]
pub enum EqCell {
    /// Part of the bar of the selected band.
    SelectedBar,
    /// Part of a bar above zero.
    PositiveBar,
    /// Part of a bar below zero.
    NegativeBar,
    /// The zero line in the selected band.
    SelectedZero,
    /// The zero line.
    Zero,
    /// The guides of the selected band.
    Guide,
    /// Nothing.
    Blank,
}

/// The rows of the bars in a panel: what is left of its height after the texts.
pub open spec fn bar_rows(inner_height: u16) -> int {
    if inner_height >= 5 {
        inner_height - 5
    } else {
        0
    }
}

/// The divisor of the scale: one less than the number of rows, and at least one.
pub open spec fn scale_steps(bar_height: int) -> int {
    if bar_height - 1 >= 1 {
        bar_height - 1
    } else {
        1
    }
}

/// True if the bar of a band reaches row `row`: the gain at that row,
/// which goes from 12 dB at the top to -12 dB at the bottom, lies
/// between zero and the gain of the band.
pub open spec fn bar_reaches(gain: i16, row: int, bar_height: int) -> bool {
    let steps = scale_steps(bar_height);
    let level = 1200 * steps - 2400 * row;
    if gain >= 0 {
        level >= 0 && level <= gain * steps
    } else {
        level <= 0 && level >= gain * steps
    }
}

/// What the cell of a band in a row shows.
pub open spec fn cell_of(gain: i16, row: int, bar_height: int, selected: bool) -> EqCell {
    if bar_reaches(gain, row, bar_height) {
        if selected {
            EqCell::SelectedBar
        } else if gain >= 0 {
            EqCell::PositiveBar
        } else {
            EqCell::NegativeBar
        }
    } else if row == bar_height / 2 {
        if selected {
            EqCell::SelectedZero
        } else {
            EqCell::Zero
        }
    } else if selected {
        EqCell::Guide
    } else {
        EqCell::Blank
    }
}

/// Number of rows of the bars in a panel of the given inner height.
pub fn bar_height_of(inner_height: u16) -> (rows: u16)
    ensures
        rows == bar_rows(inner_height),
{
    if inner_height >= 5 {
        inner_height - 5
    } else {
        0
    }
}

/// Tells whether the panel is large enough to show its bars.
pub fn panel_fits(inner_width: u16, inner_height: u16) -> (fits: bool)
    ensures
        fits == (inner_height >= 6 && inner_width >= 40),
{
    inner_height >= 6 && inner_width >= 40
}

/// What the cell of a band with a gain shows in a row of the bars.
pub fn eq_cell(gain: i16, row: u16, bar_height: u16, selected: bool) -> (cell: EqCell)
    ensures
        cell == cell_of(gain, row as int, bar_height as int, selected),
{
    let steps: i64 = if bar_height >= 2 {
        (bar_height - 1) as i64
    } else {
        1
    };
    let level: i64 = 1200 * steps - 2400 * (row as i64);
    assert(-32768 * 65535 <= gain * steps <= 32767 * 65535) by (nonlinear_arith)
        requires
            -32768 <= gain <= 32767,
            1 <= steps <= 65535,
    ;
    let reach: i64 = gain as i64 * steps;
    let filled = if gain >= 0 {
        level >= 0 && level <= reach
    } else {
        level <= 0 && level >= reach
    };
    if filled {
        if selected {
            EqCell::SelectedBar
        } else if gain >= 0 {
            EqCell::PositiveBar
        } else {
            EqCell::NegativeBar
        }
    } else if row == bar_height / 2 {
        if selected {
            EqCell::SelectedZero
        } else {
            EqCell::Zero
        }
    } else if selected {
        EqCell::Guide
    } else {
        EqCell::Blank
    }
}

/// The text of a cell: two columns.
pub fn cell_text(cell: EqCell) -> (s: &'static str)
    ensures
        s@ == (match cell {
            EqCell::SelectedBar | EqCell::PositiveBar | EqCell::NegativeBar => "\u{2588}\u{2588}"@,
            EqCell::SelectedZero | EqCell::Zero => "\u{2500}\u{2500}"@,
            EqCell::Guide => "\u{258F}\u{2595}"@,
            EqCell::Blank => "  "@,
        }),
{
    match cell {
        EqCell::SelectedBar | EqCell::PositiveBar | EqCell::NegativeBar => "\u{2588}\u{2588}",
        EqCell::SelectedZero | EqCell::Zero => "\u{2500}\u{2500}",
        EqCell::Guide => "\u{258F}\u{2595}",
        EqCell::Blank => "  ",
    }
}

/// The mark of the scale beside a row: the largest gain at the top, zero
/// in the middle, the smallest gain at the bottom.
pub fn scale_mark(row: u16, bar_height: u16) -> (mark: Option<&'static str>)
    ensures
        match mark {
            Some(m) => m@ == (if row == 0 {
                " +12"@
            } else if row == bar_height / 2 {
                "  0"@
            } else {
                " -12"@
            }) && (row == 0 || row == bar_height / 2 || row + 1 == bar_height),
            None => row != 0 && row != bar_height / 2 && row + 1 != bar_height,
        },
{
    if row == 0 {
        Some(" +12")
    } else if row == bar_height / 2 {
        Some("  0")
    } else if row as u32 + 1 == bar_height as u32 {
        Some(" -12")
    } else {
        None
    }
}

/// True if the axis names the frequency of a band.
pub open spec fn is_labelled(band: int) -> bool {
    band == 0 || band == 4 || band == 8 || band == 12 || band == 16 || band == 21 || band == 25
        || band == 28 || band == 31
}

/// The axis after the labels of the bands below `band` were written on
/// it: every label starts at the column of its band and is cut off at
/// the end of the axis; a later label overwrites an earlier one.
pub open spec fn axis_upto(band: int) -> Seq<char>
    decreases band,
{
    if band <= 0 {
        Seq::new(BAR_WIDTH as nat, |i: int| ' ')
    } else {
        let before = axis_upto(band - 1);
        if is_labelled(band - 1) {
            let label = freq_text(BAND_FREQS[band - 1]);
            Seq::new(
                BAR_WIDTH as nat,
                |i: int|
                    if 2 * (band - 1) <= i < 2 * (band - 1) + label.len() {
                        label[i - 2 * (band - 1)]
                    } else {
                        before[i]
                    },
            )
        } else {
            before
        }
    }
}

/// The axis below the bars: the frequencies of some of the bands, each
/// at the column of its band.
pub fn axis() -> (line: Vec<char>)
    ensures
        line@ == axis_upto(NUM_BANDS as int),
{
    let mut line: Vec<char> = Vec::new();
    let mut i: usize = 0;
    while i < BAR_WIDTH
        invariant
            i <= BAR_WIDTH,
            line@.len() == i,
            forall|k: int| 0 <= k < i ==> line@[k] == ' ',
        decreases BAR_WIDTH - i,
    {
        line.push(' ');
        i += 1;
    }
    proof {
        assert(line@ =~= axis_upto(0));
    }
    let mut band: usize = 0;
    while band < NUM_BANDS
        invariant
            band <= NUM_BANDS,
            line@ == axis_upto(band as int),
            line@.len() == BAR_WIDTH,
        decreases NUM_BANDS - band,
    {
        if band == 0 || band == 4 || band == 8 || band == 12 || band == 16 || band == 21 || band
            == 25 || band == 28 || band == 31 {
            let label = format_freq(BAND_FREQS[band]);
            let chars = chars_of(label.as_str());
            let ghost before = line@;
            let col = band * 2;
            let mut j: usize = 0;
            while j < chars.len() && col + j < BAR_WIDTH
                invariant
                    col == band * 2,
                    band < NUM_BANDS,
                    j <= chars@.len(),
                    col + j <= BAR_WIDTH,
                    before.len() == BAR_WIDTH,
                    line@.len() == BAR_WIDTH,
                    forall|k: int|
                        0 <= k < BAR_WIDTH ==> line@[k] == (if col <= k < col + j {
                            chars@[k - col]
                        } else {
                            before[k]
                        }),
                decreases chars@.len() - j,
            {
                line.set(col + j, chars[j]);
                j += 1;
            }
            proof {
                assert(line@ =~= axis_upto(band as int + 1));
            }
        }
        band += 1;
    }
    line
}

} // verus!
