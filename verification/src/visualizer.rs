//! The three real-time displays, rasterised onto a dot canvas.
//!
//! Samples are signed 16-bit values with full scale at 32767. Every display
//! is computed from a snapshot of the sample buffer and the size of the area
//! in terminal cells, and comes out as a `Frame`: one braille glyph and one
//! tint per cell.

use vstd::prelude::*;
use crate::canvas::{braille_char, cell_any, cell_bits, Canvas, BRAILLE_BASE};
use crate::text::char_from_u32;

verus! {

/// Which of the three real-time displays is active.
#[derive(Clone, Copy, PartialEq, Eq, Structural, Debug)]
pub enum VisMode {
    Oscilloscope,
    Vectorscope,
    Spectroscope,
}

impl VisMode {
    /// The mode that follows `self` in the cycle
    /// oscilloscope, vectorscope, spectroscope, oscilloscope.
    pub open spec fn spec_next(self) -> VisMode {
        match self {
            VisMode::Oscilloscope => VisMode::Vectorscope,
            VisMode::Vectorscope => VisMode::Spectroscope,
            VisMode::Spectroscope => VisMode::Oscilloscope,
        }
    }

    /// The title shown on the border of the display.
    pub open spec fn spec_label(self) -> Seq<char> {
        match self {
            VisMode::Oscilloscope => " Oscilloscope "@,
            VisMode::Vectorscope => " Vectorscope "@,
            VisMode::Spectroscope => " Spectroscope "@,
        }
    }

    #[verifier::when_used_as_spec(spec_next)]
    pub fn next(self) -> (r: VisMode)
        ensures
            r == self.spec_next(),
    {
        match self {
            VisMode::Oscilloscope => VisMode::Vectorscope,
            VisMode::Vectorscope => VisMode::Spectroscope,
            VisMode::Spectroscope => VisMode::Oscilloscope,
        }
    }

    pub fn label(self) -> (r: &'static str)
        ensures
            r@ == self.spec_label(),
    {
        match self {
            VisMode::Oscilloscope => " Oscilloscope ",
            VisMode::Vectorscope => " Vectorscope ",
            VisMode::Spectroscope => " Spectroscope ",
        }
    }
}

/// Three steps of `next` lead back to the mode one started from, and fewer do not.
pub proof fn lemma_vis_mode_cycle(m: VisMode)
    ensures
        m.next().next().next() == m,
        m.next() != m,
        m.next().next() != m,
{
}

/// Colour class of one cell of a frame.
#[derive(Clone, Copy, PartialEq, Eq, Structural, Debug)]
pub enum Tint {
    /// Reference lines and empty cells.
    Dim,
    /// Signal; the lowest third of a spectrum.
    Green,
    /// The middle third of a spectrum.
    Yellow,
    /// The top third of a spectrum.
    Red,
}

/// Full scale of a sample.
pub const FULL_SCALE: i16 = 32767;

/// True if `tints` holds `rows` rows of `cols` tints each.
pub open spec fn tint_grid(tints: Seq<Vec<Tint>>, cols: int, rows: int) -> bool {
    &&& tints.len() == rows
    &&& forall|r: int| 0 <= r < rows ==> (#[trigger] tints[r])@.len() == cols
}

/// A rendered display: a canvas and one tint per cell.
pub struct Frame {
    canvas: Canvas,
    tints: Vec<Vec<Tint>>,
}

impl Frame {
    pub closed spec fn wf(&self) -> bool {
        &&& self.canvas.wf()
        &&& tint_grid(self.tints@, self.canvas.spec_cols() as int, self.canvas.spec_rows() as int)
    }

    pub closed spec fn spec_cols(&self) -> u16 {
        self.canvas.spec_cols()
    }

    pub closed spec fn spec_rows(&self) -> u16 {
        self.canvas.spec_rows()
    }

    /// The canvas that the frame shows.
    pub closed spec fn dots(&self) -> Canvas {
        self.canvas
    }

    /// True if pixel `(x, y)` is lit.
    pub open spec fn lit(&self, x: int, y: int) -> bool {
        self.dots().lit(x, y)
    }

    /// The tint of cell `(cx, cy)`.
    pub closed spec fn spec_tint(&self, cx: int, cy: int) -> Tint {
        self.tints@[cy]@[cx]
    }

    /// The glyph of cell `(cx, cy)`.
    pub open spec fn spec_glyph(&self, cx: int, cy: int) -> char {
        braille_char(self.dots().spec_bits(cx, cy))
    }

    /// The glyph of a cell is fixed by its eight pixels: it raises the
    /// dots of those that are lit, and so it is the blank pattern exactly
    /// if none of them is lit.
    pub proof fn lemma_glyph(&self, cx: int, cy: int)
        requires
            self.wf(),
            0 <= cx < self.spec_cols(),
            0 <= cy < self.spec_rows(),
        ensures
            self.spec_glyph(cx, cy) == braille_char(
                cell_bits(|x: int, y: int| self.lit(x, y), cx, cy),
            ),
            self.spec_glyph(cx, cy) == '\u{2800}' <==> !cell_any(
                |x: int, y: int| self.lit(x, y),
                cx,
                cy,
            ),
    {
        let bits = self.dots().spec_bits(cx, cy);
        self.dots().lemma_cell_bits(cx, cy);
        self.dots().lemma_cell_lit(cx, cy);
        lemma_cell_any_equiv(
            |x: int, y: int| self.dots().lit(x, y),
            |x: int, y: int| self.lit(x, y),
            cx,
            cy,
        );
        assert(bits == cell_bits(|x: int, y: int| self.lit(x, y), cx, cy));
        assert(braille_char(bits) == '\u{2800}' <==> bits == 0);
    }

    #[verifier::when_used_as_spec(spec_cols)]
    pub fn cols(&self) -> (r: u16)
        ensures
            r == self.spec_cols(),
    {
        self.canvas.cols()
    }

    #[verifier::when_used_as_spec(spec_rows)]
    pub fn rows(&self) -> (r: u16)
        ensures
            r == self.spec_rows(),
    {
        self.canvas.rows()
    }

    /// The braille character of cell `(cx, cy)`.
    pub fn glyph(&self, cx: u16, cy: u16) -> (c: char)
        requires
            self.wf(),
            cx < self.spec_cols(),
            cy < self.spec_rows(),
        ensures
            c == self.spec_glyph(cx as int, cy as int),
    {
        let bits = self.canvas.bits(cx, cy);
        let code: u32 = BRAILLE_BASE + bits as u32;
        match char_from_u32(code) {
            Some(c) => c,
            None => ' ',
        }
    }

    /// The tint of cell `(cx, cy)`.
    pub fn tint(&self, cx: u16, cy: u16) -> (t: Tint)
        requires
            self.wf(),
            cx < self.spec_cols(),
            cy < self.spec_rows(),
        ensures
            t == self.spec_tint(cx as int, cy as int),
    {
        self.tints[cy as usize][cx as usize]
    }

    /// Tells whether pixel `(x, y)` is lit.
    pub fn is_lit(&self, x: usize, y: usize) -> (b: bool)
        requires
            self.wf(),
        ensures
            b == self.lit(x as int, y as int),
    {
        self.canvas.is_lit(x, y)
    }
}

/// Number of interleaved channels, where zero counts as one.
pub open spec fn channel_count(channels: u16) -> int {
    if channels == 0 {
        1
    } else {
        channels as int
    }
}

/// A sample limited to the symmetric range from -32767 to 32767.
pub open spec fn clamp_sample(s: i16) -> int {
    if s < -FULL_SCALE {
        -FULL_SCALE as int
    } else {
        s as int
    }
}

/// The pixel row of an amplitude on a scope `px_h` pixels high: full scale
/// up is row 0, silence the middle row, and full scale down is clipped to
/// the last row.
pub open spec fn trace_row(s: i16, px_h: int) -> int {
    let r = (32767 - clamp_sample(s)) * px_h / 65534;
    if r > px_h - 1 {
        px_h - 1
    } else {
        r
    }
}

/// The sample that the oscilloscope shows in pixel column `x`: the first
/// channel of the frame at the same relative place in the buffer.
pub open spec fn trace_sample(samples: Seq<i16>, channels: u16, px_w: int, x: int) -> i16 {
    let ch = channel_count(channels);
    let frames = samples.len() as int / ch;
    let i = (x * frames / px_w) * ch;
    if 0 <= i < samples.len() {
        samples[i]
    } else {
        0i16
    }
}

/// True if `(x, y)` is a pixel of the oscilloscope's centre line.
pub open spec fn scope_reference(rows: int, y: int) -> bool {
    y == 4 * rows / 2
}

/// True if `(x, y)` is a pixel of the oscilloscope's trace.
pub open spec fn scope_trace(
    samples: Seq<i16>,
    channels: u16,
    cols: int,
    rows: int,
    x: int,
    y: int,
) -> bool {
    &&& 0 <= x < 2 * cols
    &&& y == trace_row(trace_sample(samples, channels, 2 * cols, x), 4 * rows)
}

/// The tint of a cell of the oscilloscope or the vectorscope: green where
/// the signal lights a pixel that no reference line lights.
pub open spec fn signal_tint(signal: spec_fn(int, int) -> bool, cx: int, cy: int) -> Tint {
    if cell_any(signal, cx, cy) {
        Tint::Green
    } else {
        Tint::Dim
    }
}

proof fn lemma_cell_any_equiv(
    p: spec_fn(int, int) -> bool,
    q: spec_fn(int, int) -> bool,
    cx: int,
    cy: int,
)
    requires
        forall|x: int, y: int|
            2 * cx <= x < 2 * cx + 2 && 4 * cy <= y < 4 * cy + 4 ==> (#[trigger] p(x, y)) == (
            #[trigger] q(x, y)),
    ensures
        cell_any(p, cx, cy) == cell_any(q, cx, cy),
{
    if cell_any(p, cx, cy) {
        let (x, y) = choose|x: int, y: int|
            2 * cx <= x < 2 * cx + 2 && 4 * cy <= y < 4 * cy + 4 && #[trigger] p(x, y);
        assert(q(x, y));
    }
    if cell_any(q, cx, cy) {
        let (x, y) = choose|x: int, y: int|
            2 * cx <= x < 2 * cx + 2 && 4 * cy <= y < 4 * cy + 4 && #[trigger] q(x, y);
        assert(p(x, y));
    }
}

/// One tint per cell, row by row: green where `canvas` lights a pixel that `reference` does not.
fn signal_tints(canvas: &Canvas, reference: &Canvas) -> (tints: Vec<Vec<Tint>>)
    requires
        canvas.wf(),
        reference.wf(),
        reference.spec_cols() == canvas.spec_cols(),
        reference.spec_rows() == canvas.spec_rows(),
    ensures
        tint_grid(tints@, canvas.spec_cols() as int, canvas.spec_rows() as int),
        forall|cx: int, cy: int|
            0 <= cx < canvas.spec_cols() && 0 <= cy < canvas.spec_rows() ==> #[trigger] tints@[cy]@[cx]
                == signal_tint(|x: int, y: int| canvas.lit(x, y) && !reference.lit(x, y), cx, cy),
{
    let cols = canvas.cols();
    let rows = canvas.rows();
    let ghost signal = |x: int, y: int| canvas.lit(x, y) && !reference.lit(x, y);
    let mut tints: Vec<Vec<Tint>> = Vec::new();
    let mut cy: u16 = 0;
    while cy < rows
        invariant
            canvas.wf(),
            reference.wf(),
            reference.spec_cols() == cols,
            reference.spec_rows() == rows,
            canvas.spec_cols() == cols,
            canvas.spec_rows() == rows,
            cy <= rows,
            signal == |x: int, y: int| canvas.lit(x, y) && !reference.lit(x, y),
            tint_grid(tints@, cols as int, cy as int),
            forall|ex: int, ey: int|
                0 <= ex < cols && 0 <= ey < cy ==> #[trigger] tints@[ey]@[ex] == signal_tint(
                    signal,
                    ex,
                    ey,
                ),
        decreases rows - cy,
    {
        let mut row: Vec<Tint> = Vec::new();
        let mut cx: u16 = 0;
        while cx < cols
            invariant
                canvas.wf(),
                reference.wf(),
                reference.spec_cols() == cols,
                reference.spec_rows() == rows,
                canvas.spec_cols() == cols,
                canvas.spec_rows() == rows,
                cy < rows,
                cx <= cols,
                signal == |x: int, y: int| canvas.lit(x, y) && !reference.lit(x, y),
                row@.len() == cx,
                forall|ex: int| 0 <= ex < cx ==> #[trigger] row@[ex] == signal_tint(signal, ex, cy as int),
            decreases cols - cx,
        {
            let dots = canvas.bits(cx, cy);
            let base = reference.bits(cx, cy);
            proof {
                canvas.lemma_cell_beyond(reference, cx as int, cy as int);
            }
            if (dots & !base) != 0 {
                row.push(Tint::Green);
            } else {
                row.push(Tint::Dim);
            }
            cx += 1;
        }
        tints.push(row);
        cy += 1;
    }
    tints
}

proof fn lemma_trace_index(x: int, frames: int, px_w: int, ch: int, len: int)
    by (nonlinear_arith)
    requires
        0 <= x < px_w <= 0x3FFFF,
        0 < ch,
        0 <= len <= 0xFFFF_FFFF_FFFF_FFFF,
        frames == len / ch,
    ensures
        0 <= x * frames <= 0x3FFFF * 0xFFFF_FFFF_FFFF_FFFF,
        0 <= x * frames / px_w <= frames,
        0 <= (x * frames / px_w) * ch <= len,
{
    assert(0 <= frames <= len);
    assert(frames * ch <= len);
    assert(x * frames <= px_w * frames);
    assert(x * frames / px_w <= frames);
}

/// The pixel row of a sample on a scope `px_h` pixels high.
fn trace_row_of(s: i16, px_h: usize) -> (r: usize)
    requires
        1 <= px_h <= 4 * 0xFFFF,
    ensures
        r == trace_row(s, px_h as int),
        r < px_h,
{
    let q: i64 = if s < -32767 {
        -32767
    } else {
        s as i64
    };
    let up: u64 = (32767 - q) as u64;
    assert(up * px_h <= 65534 * 262140) by (nonlinear_arith)
        requires
            0 <= up <= 65534,
            0 <= px_h <= 262140,
    ;
    let r: u64 = up * (px_h as u64) / 65534;
    if r > (px_h - 1) as u64 {
        px_h - 1
    } else {
        r as usize
    }
}

/// The oscilloscope: a centre line, and the first channel as a trace over
/// the width of the area. `None` if there is nothing to draw: an area
/// without cells or an empty buffer.
pub fn oscilloscope(samples: &Vec<i16>, channels: u16, cols: u16, rows: u16) -> (r: Option<Frame>)
    ensures
        r is None <==> (cols == 0 || rows == 0 || samples@.len() == 0),
        r matches Some(f) ==> {
            &&& f.wf()
            &&& f.spec_cols() == cols
            &&& f.spec_rows() == rows
            &&& f.dots().wf()
            &&& f.dots().spec_cols() == cols
            &&& f.dots().spec_rows() == rows
            &&& forall|x: int, y: int|
                #![trigger f.lit(x, y)]
                f.lit(x, y) <==> (0 <= x < 2 * cols && 0 <= y < 4 * rows && (scope_reference(
                    rows as int,
                    y,
                ) || scope_trace(samples@, channels, cols as int, rows as int, x, y)))
            &&& forall|cx: int, cy: int|
                #![trigger f.spec_tint(cx, cy)]
                0 <= cx < cols && 0 <= cy < rows ==> f.spec_tint(cx, cy) == signal_tint(
                    |x: int, y: int|
                        scope_trace(samples@, channels, cols as int, rows as int, x, y)
                            && !scope_reference(rows as int, y),
                    cx,
                    cy,
                )
        },
{
    if cols == 0 || rows == 0 || samples.len() == 0 {
        return None;
    }
    let ch: usize = if channels == 0 {
        1
    } else {
        channels as usize
    };
    let px_w: usize = cols as usize * 2;
    let px_h: usize = rows as usize * 4;
    let centre: usize = px_h / 2;
    let mut reference = Canvas::new(cols, rows);
    let mut x: usize = 0;
    while x < px_w
        invariant
            reference.wf(),
            reference.spec_cols() == cols,
            reference.spec_rows() == rows,
            px_w == 2 * cols,
            px_h == 4 * rows,
            centre == px_h / 2,
            rows > 0,
            x <= px_w,
            forall|x2: int, y2: int|
                #![trigger reference.lit(x2, y2)]
                reference.lit(x2, y2) <==> (0 <= x2 < x && y2 == centre),
        decreases px_w - x,
    {
        reference.plot(x, centre);
        x += 1;
    }
    let mut canvas = reference.duplicate();
    let frames: usize = samples.len() / ch;
    x = 0;
    while x < px_w
        invariant
            canvas.wf(),
            canvas.spec_cols() == cols,
            canvas.spec_rows() == rows,
            px_w == 2 * cols,
            px_h == 4 * rows,
            centre == px_h / 2,
            rows > 0,
            cols > 0,
            x <= px_w,
            ch == channel_count(channels),
            frames == samples@.len() as int / ch as int,
            samples@.len() <= usize::MAX,
            forall|x2: int, y2: int|
                #![trigger canvas.lit(x2, y2)]
                canvas.lit(x2, y2) <==> (0 <= x2 < px_w && 0 <= y2 < px_h && (y2 == centre || (x2
                    < x && scope_trace(samples@, channels, cols as int, rows as int, x2, y2)))),
        decreases px_w - x,
    {
        proof {
            lemma_trace_index(x as int, frames as int, px_w as int, ch as int, samples@.len() as int);
        }
        let at: u128 = (x as u128 * frames as u128) / (px_w as u128);
        assert(at == x as int * frames as int / px_w as int);
        let i: usize = (at as usize) * ch;
        let s: i16 = if i < samples.len() {
            samples[i]
        } else {
            0
        };
        let y = trace_row_of(s, px_h);
        canvas.plot(x, y);
        x += 1;
    }
    let tints = signal_tints(&canvas, &reference);
    let f = Frame { canvas, tints };
    proof {
        assert forall|cx: int, cy: int|
            #![trigger f.spec_tint(cx, cy)]
            0 <= cx < cols && 0 <= cy < rows implies f.spec_tint(cx, cy) == signal_tint(
            |x: int, y: int|
                scope_trace(samples@, channels, cols as int, rows as int, x, y)
                    && !scope_reference(rows as int, y),
            cx,
            cy,
        ) by {
            lemma_cell_any_equiv(
                |x: int, y: int| canvas.lit(x, y) && !reference.lit(x, y),
                |x: int, y: int|
                    scope_trace(samples@, channels, cols as int, rows as int, x, y)
                        && !scope_reference(rows as int, y),
                cx,
                cy,
            );
        }
    }
    Some(f)
}

/// Half the side of the square that the vectorscope plots in, in pixels:
/// the smaller of half the width and half the height.
pub open spec fn scope_radius(cols: int, rows: int) -> int {
    if cols <= 2 * rows {
        cols
    } else {
        2 * rows
    }
}

/// `v` limited to the pixels `0` to `n - 1`.
pub open spec fn clamp_px(v: int, n: int) -> int {
    if v < 0 {
        0
    } else if v > n - 1 {
        n - 1
    } else {
        v
    }
}

/// The left sample of frame `i`.
pub open spec fn frame_left(samples: Seq<i16>, channels: u16, i: int) -> int {
    clamp_sample(samples[i * channel_count(channels)])
}

/// The right sample of frame `i`; with one channel, the left one again.
pub open spec fn frame_right(samples: Seq<i16>, channels: u16, i: int) -> int {
    if channel_count(channels) >= 2 {
        clamp_sample(samples[i * channel_count(channels) + 1])
    } else {
        frame_left(samples, channels, i)
    }
}

/// Pixel column of a stereo pair: the centre plus the side signal
/// `(l - r) * 0.707` scaled by the radius.
pub open spec fn vector_x(l: int, r: int, cols: int, rows: int) -> int {
    clamp_px(cols + ((l - r) * 707 * scope_radius(cols, rows)) / 32_767_000, 2 * cols)
}

/// Pixel row of a stereo pair: the centre minus the mid signal
/// `(l + r) * 0.707` scaled by the radius.
pub open spec fn vector_y(l: int, r: int, cols: int, rows: int) -> int {
    clamp_px(2 * rows + (-(l + r) * 707 * scope_radius(cols, rows)) / 32_767_000, 4 * rows)
}

/// True if frame `i` falls on pixel `(x, y)` of the vectorscope.
pub open spec fn vector_hit(
    samples: Seq<i16>,
    channels: u16,
    cols: int,
    rows: int,
    i: int,
    x: int,
    y: int,
) -> bool {
    &&& x == vector_x(
        frame_left(samples, channels, i),
        frame_right(samples, channels, i),
        cols,
        rows,
    )
    &&& y == vector_y(
        frame_left(samples, channels, i),
        frame_right(samples, channels, i),
        cols,
        rows,
    )
}

/// True if one of the first `n` frames falls on pixel `(x, y)`.
pub open spec fn vector_signal_upto(
    samples: Seq<i16>,
    channels: u16,
    cols: int,
    rows: int,
    n: int,
    x: int,
    y: int,
) -> bool {
    exists|i: int| 0 <= i < n && #[trigger] vector_hit(samples, channels, cols, rows, i, x, y)
}

/// True if some frame of the buffer falls on pixel `(x, y)`.
pub open spec fn vector_signal(
    samples: Seq<i16>,
    channels: u16,
    cols: int,
    rows: int,
    x: int,
    y: int,
) -> bool {
    vector_signal_upto(
        samples,
        channels,
        cols,
        rows,
        samples.len() as int / channel_count(channels),
        x,
        y,
    )
}

/// True if `(x, y)` is a pixel of the vectorscope's crosshair.
pub open spec fn vector_reference(cols: int, rows: int, x: int, y: int) -> bool {
    x == 2 * cols / 2 || y == 4 * rows / 2
}

/// `num / 32_767_000`, rounded down.
fn scale_down(num: i64) -> (r: i64)
    requires
        -0x0FFF_FFFF_FFFF_FFFF <= num <= 0x0FFF_FFFF_FFFF_FFFF,
    ensures
        r == num as int / 32_767_000,
{
    if num >= 0 {
        num / 32_767_000
    } else {
        let up: i64 = (-num + 32_766_999) / 32_767_000;
        -up
    }
}

/// A sample limited to the symmetric range.
fn clamped(s: i16) -> (r: i64)
    ensures
        r == clamp_sample(s),
{
    if s < -32767 {
        -32767
    } else {
        s as i64
    }
}

/// A pixel coordinate limited to `0 .. n`.
fn clamp_to(v: i64, n: usize) -> (r: usize)
    requires
        1 <= n <= 0x3FFFF,
    ensures
        r == clamp_px(v as int, n as int),
        r < n,
{
    if v < 0 {
        0
    } else if v > (n - 1) as i64 {
        n - 1
    } else {
        v as usize
    }
}

proof fn lemma_frame_index(i: int, frames: int, ch: int, len: int)
    by (nonlinear_arith)
    requires
        0 <= i < frames,
        0 < ch,
        0 <= len,
        frames == len / ch,
    ensures
        0 <= i * ch,
        i * ch + ch <= len,
{
    assert(frames * ch <= len);
    assert((i + 1) * ch <= frames * ch);
}

proof fn lemma_vector_product(d: int, radius: int)
    by (nonlinear_arith)
    requires
        -65534 <= d <= 65534,
        0 <= radius <= 0xFFFF,
    ensures
        -65534 * 707 * 0xFFFF <= d * 707 * radius <= 65534 * 707 * 0xFFFF,
        (-d) * 707 * radius == -(d * 707 * radius),
{
}

/// The vectorscope: a crosshair, and one dot for every stereo frame at
/// `(side, mid)`. `None` if there is nothing to draw: an area without
/// cells or an empty buffer.
pub fn vectorscope(samples: &Vec<i16>, channels: u16, cols: u16, rows: u16) -> (r: Option<Frame>)
    ensures
        r is None <==> (cols == 0 || rows == 0 || samples@.len() == 0),
        r matches Some(f) ==> {
            &&& f.wf()
            &&& f.spec_cols() == cols
            &&& f.spec_rows() == rows
            &&& f.dots().wf()
            &&& f.dots().spec_cols() == cols
            &&& f.dots().spec_rows() == rows
            &&& forall|x: int, y: int|
                #![trigger f.lit(x, y)]
                f.lit(x, y) <==> (0 <= x < 2 * cols && 0 <= y < 4 * rows && (vector_reference(
                    cols as int,
                    rows as int,
                    x,
                    y,
                ) || vector_signal(samples@, channels, cols as int, rows as int, x, y)))
            &&& forall|cx: int, cy: int|
                #![trigger f.spec_tint(cx, cy)]
                0 <= cx < cols && 0 <= cy < rows ==> f.spec_tint(cx, cy) == signal_tint(
                    |x: int, y: int|
                        vector_signal(samples@, channels, cols as int, rows as int, x, y)
                            && !vector_reference(cols as int, rows as int, x, y),
                    cx,
                    cy,
                )
        },
{
    if cols == 0 || rows == 0 || samples.len() == 0 {
        return None;
    }
    let ch: usize = if channels == 0 {
        1
    } else {
        channels as usize
    };
    let px_w: usize = cols as usize * 2;
    let px_h: usize = rows as usize * 4;
    let mid_x: usize = px_w / 2;
    let mid_y: usize = px_h / 2;
    let radius: i64 = if mid_x <= mid_y {
        mid_x as i64
    } else {
        mid_y as i64
    };
    let mut reference = Canvas::new(cols, rows);
    let mut y: usize = 0;
    while y < px_h
        invariant
            reference.wf(),
            reference.spec_cols() == cols,
            reference.spec_rows() == rows,
            px_w == 2 * cols,
            px_h == 4 * rows,
            mid_x == cols,
            cols > 0,
            y <= px_h,
            forall|x2: int, y2: int|
                #![trigger reference.lit(x2, y2)]
                reference.lit(x2, y2) <==> (x2 == mid_x && 0 <= y2 < y),
        decreases px_h - y,
    {
        reference.plot(mid_x, y);
        y += 1;
    }
    let mut x: usize = 0;
    while x < px_w
        invariant
            reference.wf(),
            reference.spec_cols() == cols,
            reference.spec_rows() == rows,
            px_w == 2 * cols,
            px_h == 4 * rows,
            mid_x == cols,
            mid_y == 2 * rows,
            cols > 0,
            rows > 0,
            x <= px_w,
            forall|x2: int, y2: int|
                #![trigger reference.lit(x2, y2)]
                reference.lit(x2, y2) <==> ((x2 == mid_x && 0 <= y2 < px_h) || (y2 == mid_y && 0
                    <= x2 < x)),
        decreases px_w - x,
    {
        reference.plot(x, mid_y);
        x += 1;
    }
    let mut canvas = reference.duplicate();
    let frames: usize = samples.len() / ch;
    let mut i: usize = 0;
    while i < frames
        invariant
            canvas.wf(),
            canvas.spec_cols() == cols,
            canvas.spec_rows() == rows,
            px_w == 2 * cols,
            px_h == 4 * rows,
            mid_x == cols,
            mid_y == 2 * rows,
            radius == scope_radius(cols as int, rows as int),
            cols > 0,
            rows > 0,
            i <= frames,
            ch == channel_count(channels),
            frames == samples@.len() as int / ch as int,
            samples@.len() <= usize::MAX,
            forall|x2: int, y2: int|
                #![trigger canvas.lit(x2, y2)]
                canvas.lit(x2, y2) <==> (0 <= x2 < px_w && 0 <= y2 < px_h && (vector_reference(
                    cols as int,
                    rows as int,
                    x2,
                    y2,
                ) || vector_signal_upto(
                    samples@,
                    channels,
                    cols as int,
                    rows as int,
                    i as int,
                    x2,
                    y2,
                ))),
        decreases frames - i,
    {
        proof {
            lemma_frame_index(i as int, frames as int, ch as int, samples@.len() as int);
        }
        let left = clamped(samples[i * ch]);
        let right = if ch >= 2 {
            clamped(samples[i * ch + 1])
        } else {
            left
        };
        proof {
            lemma_vector_product(left - right, radius as int);
            lemma_vector_product(left + right, radius as int);
        }
        let side: i64 = (left - right) * 707 * radius;
        let mid: i64 = (left + right) * 707 * radius;
        let px = clamp_to(mid_x as i64 + scale_down(side), px_w);
        let py = clamp_to(mid_y as i64 + scale_down(-mid), px_h);
        assert(vector_hit(samples@, channels, cols as int, rows as int, i as int, px as int, py as int));
        canvas.plot(px, py);
        i += 1;
    }
    let tints = signal_tints(&canvas, &reference);
    let f = Frame { canvas, tints };
    proof {
        assert forall|cx: int, cy: int|
            #![trigger f.spec_tint(cx, cy)]
            0 <= cx < cols && 0 <= cy < rows implies f.spec_tint(cx, cy) == signal_tint(
            |x: int, y: int|
                vector_signal(samples@, channels, cols as int, rows as int, x, y)
                    && !vector_reference(cols as int, rows as int, x, y),
            cx,
            cy,
        ) by {
            lemma_cell_any_equiv(
                |x: int, y: int| canvas.lit(x, y) && !reference.lit(x, y),
                |x: int, y: int|
                    vector_signal(samples@, channels, cols as int, rows as int, x, y)
                        && !vector_reference(cols as int, rows as int, x, y),
                cx,
                cy,
            );
        }
    }
    Some(f)
}

/// The smallest magnitude that the tallest bar is scaled to: 0.001 in
/// millionths, the unit of the magnitudes.
pub const MAGNITUDE_FLOOR: u32 = 1000;

/// The smallest transform size.
pub const MIN_FFT_SIZE: usize = 64;

/// True if `n` is a power of two.
pub open spec fn power_of_two(n: nat) -> bool
    decreases n,
{
    n == 1 || (n > 1 && n % 2 == 0 && power_of_two(n / 2))
}

/// Sizes of the transform behind the spectroscope.
#[derive(Clone, Copy, PartialEq, Eq, Structural, Debug)]
pub struct SpectrumPlan {
    /// Number of frames mixed down to mono.
    pub frames: usize,
    /// Transform size: the mono signal is padded with zeros to this length.
    pub fft_size: usize,
    /// Number of magnitudes kept: the first half of the transform.
    pub bins: usize,
}

impl SpectrumPlan {
    /// The sizes that belong to a buffer of `sample_count` interleaved samples.
    pub open spec fn fits(self, sample_count: int, channels: u16) -> bool {
        &&& self.frames == sample_count / channel_count(channels)
        &&& power_of_two(self.fft_size as nat)
        &&& self.fft_size >= MIN_FFT_SIZE
        &&& self.fft_size >= self.frames
        &&& (self.fft_size == MIN_FFT_SIZE || self.fft_size / 2 < self.frames)
        &&& self.bins == self.fft_size / 2
    }
}

/// Plans the transform for a buffer of `sample_count` interleaved samples:
/// the frame count, and the next power of two at or above it, at least 64.
/// `None` for an empty buffer, of which nothing is drawn.
pub fn spectrum_plan(sample_count: usize, channels: u16) -> (r: Option<SpectrumPlan>)
    requires
        sample_count <= usize::MAX / 2,
    ensures
        r is None <==> sample_count == 0,
        r matches Some(p) ==> p.fits(sample_count as int, channels),
{
    if sample_count == 0 {
        return None;
    }
    let ch: usize = if channels == 0 {
        1
    } else {
        channels as usize
    };
    let frames = sample_count / ch;
    let mut size: usize = MIN_FFT_SIZE;
    proof {
        reveal_with_fuel(power_of_two, 8);
    }
    while size < frames
        invariant
            frames <= usize::MAX / 2,
            power_of_two(size as nat),
            size >= MIN_FFT_SIZE,
            size == MIN_FFT_SIZE || size / 2 < frames,
        decreases usize::MAX - size,
    {
        size = size * 2;
    }
    Some(SpectrumPlan { frames, fft_size: size, bins: size / 2 })
}

/// The bin that a column reads, given the bin that the logarithmic scale
/// assigns to it: limited to `1 ..= bins - 1`.
pub open spec fn column_bin(raw: int, bins: int) -> int {
    if raw < 1 {
        1
    } else if raw > bins - 1 {
        bins - 1
    } else {
        raw
    }
}

/// The level of a column: the mean of the magnitudes of its bin and of the
/// bins beside it. Zero where there are fewer than two bins.
pub open spec fn column_level(magnitudes: Seq<u32>, raw: int) -> int {
    let n = magnitudes.len() as int;
    if n <= 1 {
        0
    } else {
        let bin = column_bin(raw, n);
        if bin + 1 > n - 1 {
            (magnitudes[bin - 1] + magnitudes[bin]) / 2
        } else {
            (magnitudes[bin - 1] + magnitudes[bin] + magnitudes[bin + 1]) / 3
        }
    }
}

/// The levels of all columns.
pub open spec fn column_levels(magnitudes: Seq<u32>, raw_bins: Seq<usize>) -> Seq<int> {
    Seq::new(raw_bins.len(), |c: int| column_level(magnitudes, raw_bins[c] as int))
}

/// The level that the tallest bar stands for: the largest level, and at least the floor.
pub open spec fn peak_level(levels: Seq<int>) -> int
    decreases levels.len(),
{
    if levels.len() == 0 {
        MAGNITUDE_FLOOR as int
    } else {
        let rest = peak_level(levels.drop_last());
        if levels.last() > rest {
            levels.last()
        } else {
            rest
        }
    }
}

/// Height of a bar in pixels: the level relative to the peak, times the
/// height of the area, rounded to the nearest pixel.
pub open spec fn bar_height(level: int, peak: int, px_h: int) -> int {
    let h = (2 * level * px_h + peak) / (2 * peak);
    if h > px_h {
        px_h
    } else {
        h
    }
}

/// The heights of all bars on an area `px_h` pixels high.
pub open spec fn bar_heights(magnitudes: Seq<u32>, raw_bins: Seq<usize>, px_h: int) -> Seq<int> {
    let levels = column_levels(magnitudes, raw_bins);
    Seq::new(levels.len(), |c: int| bar_height(levels[c], peak_level(levels), px_h))
}

/// True if `(x, y)` is a pixel of a bar: the bar of column `x / 2` stands on
/// the bottom edge and is as high as `heights` says.
pub open spec fn bar_pixel(heights: Seq<int>, rows: int, x: int, y: int) -> bool {
    &&& 0 <= x < 2 * heights.len()
    &&& 0 <= y < 4 * rows
    &&& y >= 4 * rows - heights[x / 2]
}

/// The tint of the cells of row `cy` of a spectrum: red in the top third,
/// yellow in the middle, green at the bottom.
pub open spec fn tier_tint(cy: int, rows: int) -> Tint {
    if 100 * cy < 33 * rows {
        Tint::Red
    } else if 100 * cy < 66 * rows {
        Tint::Yellow
    } else {
        Tint::Green
    }
}

/// The level of one column.
fn level_of(magnitudes: &Vec<u32>, raw: usize) -> (r: u32)
    ensures
        r == column_level(magnitudes@, raw as int),
{
    let n = magnitudes.len();
    if n <= 1 {
        return 0;
    }
    let bin: usize = if raw < 1 {
        1
    } else if raw > n - 1 {
        n - 1
    } else {
        raw
    };
    if bin + 1 > n - 1 {
        let sum: u64 = magnitudes[bin - 1] as u64 + magnitudes[bin] as u64;
        (sum / 2) as u32
    } else {
        let sum: u64 = magnitudes[bin - 1] as u64 + magnitudes[bin] as u64 + magnitudes[bin
            + 1] as u64;
        (sum / 3) as u32
    }
}

/// Maps the magnitudes of the transform to one level per column.
/// `raw_bins[c]` is the bin that the logarithmic scale assigns to column
/// `c`, `bins` to the power of `c / columns`; it is limited to the bins
/// that exist here.
pub fn spectrum_columns(magnitudes: &Vec<u32>, raw_bins: &Vec<usize>) -> (levels: Vec<u32>)
    ensures
        levels@.len() == raw_bins@.len(),
        forall|c: int|
            0 <= c < raw_bins@.len() ==> #[trigger] levels@[c] as int == column_level(
                magnitudes@,
                raw_bins@[c] as int,
            ),
{
    let mut levels: Vec<u32> = Vec::new();
    let mut c: usize = 0;
    while c < raw_bins.len()
        invariant
            c <= raw_bins@.len(),
            levels@.len() == c,
            forall|k: int|
                0 <= k < c ==> #[trigger] levels@[k] as int == column_level(
                    magnitudes@,
                    raw_bins@[k] as int,
                ),
        decreases raw_bins@.len() - c,
    {
        levels.push(level_of(magnitudes, raw_bins[c]));
        c += 1;
    }
    levels
}

/// The levels as integers.
pub open spec fn as_ints(levels: Seq<u32>) -> Seq<int> {
    Seq::new(levels.len(), |c: int| levels[c] as int)
}

/// The largest level, and at least the floor.
pub fn spectrum_peak(levels: &Vec<u32>) -> (peak: u32)
    ensures
        peak as int == peak_level(as_ints(levels@)),
        peak >= MAGNITUDE_FLOOR,
        forall|c: int| 0 <= c < levels@.len() ==> levels@[c] <= peak,
{
    let mut peak: u32 = MAGNITUDE_FLOOR;
    let mut c: usize = 0;
    let ghost all = as_ints(levels@);
    assert(all.take(0) =~= Seq::<int>::empty());
    while c < levels.len()
        invariant
            c <= levels@.len(),
            all == as_ints(levels@),
            peak as int == peak_level(all.take(c as int)),
            peak >= MAGNITUDE_FLOOR,
            forall|k: int| 0 <= k < c ==> levels@[k] <= peak,
        decreases levels@.len() - c,
    {
        proof {
            assert(all.take(c as int + 1).drop_last() =~= all.take(c as int));
            assert(all.take(c as int + 1).last() == levels@[c as int] as int);
        }
        if levels[c] > peak {
            peak = levels[c];
        }
        c += 1;
    }
    assert(all.take(levels@.len() as int) =~= all);
    peak
}

/// Height in pixels of the bar of a level.
fn height_of(level: u32, peak: u32, px_h: usize) -> (h: usize)
    requires
        peak >= 1,
        px_h <= 4 * 0xFFFF,
    ensures
        h == bar_height(level as int, peak as int, px_h as int),
        h <= px_h,
{
    assert(2 * level * px_h <= 2 * 0xFFFF_FFFF * 262140) by (nonlinear_arith)
        requires
            0 <= level <= 0xFFFF_FFFF,
            0 <= px_h <= 262140,
    ;
    let num: u64 = 2 * (level as u64) * (px_h as u64) + peak as u64;
    let h: u64 = num / (2 * (peak as u64));
    if h > px_h as u64 {
        px_h
    } else {
        h as usize
    }
}

/// True if `f` is the frame of a spectrum: one column of cells for every
/// entry of `raw_bins`, lit exactly in the pixels of the bars, and each
/// cell that a bar reaches tinted by its row.
pub open spec fn shows_spectrum(
    f: Frame,
    magnitudes: Seq<u32>,
    raw_bins: Seq<usize>,
    rows: u16,
) -> bool {
    &&& f.wf()
    &&& f.spec_cols() == raw_bins.len()
    &&& f.spec_rows() == rows
    &&& f.dots().wf()
    &&& f.dots().spec_cols() == raw_bins.len()
    &&& f.dots().spec_rows() == rows
    &&& forall|x: int, y: int|
        #![trigger f.lit(x, y)]
        f.lit(x, y) <==> bar_pixel(bar_heights(magnitudes, raw_bins, 4 * rows), rows as int, x, y)
    &&& forall|cx: int, cy: int|
        #![trigger f.spec_tint(cx, cy)]
        0 <= cx < f.spec_cols() && 0 <= cy < rows ==> f.spec_tint(cx, cy) == (if cell_any(
            |x: int, y: int| f.lit(x, y),
            cx,
            cy,
        ) {
            tier_tint(cy, rows as int)
        } else {
            Tint::Dim
        })
}

/// The spectroscope: one bar per column of the area, which stands on the
/// bottom edge and is scaled to the tallest bar of the frame; the cells
/// are tinted by their row. `magnitudes` are the magnitudes of the first
/// half of the transform, in millionths; `raw_bins` holds, for every
/// column, the bin that the logarithmic scale assigns to it. `None` for
/// an area without cells.
pub fn spectroscope(magnitudes: &Vec<u32>, raw_bins: &Vec<usize>, rows: u16) -> (r: Option<Frame>)
    requires
        raw_bins@.len() <= 0xFFFF,
    ensures
        r is None <==> (raw_bins@.len() == 0 || rows == 0),
        r matches Some(f) ==> shows_spectrum(f, magnitudes@, raw_bins@, rows),
{
    if raw_bins.len() == 0 || rows == 0 {
        return None;
    }
    let cols: u16 = raw_bins.len() as u16;
    let px_h: usize = rows as usize * 4;
    let levels = spectrum_columns(magnitudes, raw_bins);
    let peak = spectrum_peak(&levels);
    let ghost heights = bar_heights(magnitudes@, raw_bins@, px_h as int);
    proof {
        assert(as_ints(levels@) =~= column_levels(magnitudes@, raw_bins@));
    }
    let mut canvas = Canvas::new(cols, rows);
    let mut col: usize = 0;
    while col < cols as usize
        invariant
            canvas.wf(),
            canvas.spec_cols() == cols,
            canvas.spec_rows() == rows,
            cols == raw_bins@.len(),
            levels@.len() == cols,
            px_h == 4 * rows,
            rows > 0,
            col <= cols,
            peak >= 1,
            peak as int == peak_level(as_ints(levels@)),
            as_ints(levels@) == column_levels(magnitudes@, raw_bins@),
            heights == bar_heights(magnitudes@, raw_bins@, px_h as int),
            forall|x: int, y: int|
                #![trigger canvas.lit(x, y)]
                canvas.lit(x, y) <==> (x < 2 * col && bar_pixel(heights, rows as int, x, y)),
        decreases cols - col,
    {
        let h = height_of(levels[col], peak, px_h);
        assert(h == heights[col as int]);
        let mut py: usize = px_h - h;
        while py < px_h
            invariant
                canvas.wf(),
                canvas.spec_cols() == cols,
                canvas.spec_rows() == rows,
                cols == raw_bins@.len(),
                heights.len() == cols,
                px_h == 4 * rows,
                col < cols,
                h == heights[col as int],
                h <= px_h,
                px_h - h <= py <= px_h,
                forall|x: int, y: int|
                    #![trigger canvas.lit(x, y)]
                    canvas.lit(x, y) <==> ((x < 2 * col && bar_pixel(heights, rows as int, x, y))
                        || (x / 2 == col && 0 <= x && px_h - h <= y < py)),
            decreases px_h - py,
        {
            canvas.plot(2 * col, py);
            canvas.plot(2 * col + 1, py);
            py += 1;
        }
        col += 1;
    }
    let mut tints: Vec<Vec<Tint>> = Vec::new();
    let mut cy: u16 = 0;
    while cy < rows
        invariant
            canvas.wf(),
            canvas.spec_cols() == cols,
            canvas.spec_rows() == rows,
            cy <= rows,
            tint_grid(tints@, cols as int, cy as int),
            forall|ex: int, ey: int|
                0 <= ex < cols && 0 <= ey < cy ==> #[trigger] tints@[ey]@[ex] == (if cell_any(
                    |x: int, y: int| canvas.lit(x, y),
                    ex,
                    ey,
                ) {
                    tier_tint(ey, rows as int)
                } else {
                    Tint::Dim
                }),
        decreases rows - cy,
    {
        let tier = if 100 * (cy as u32) < 33 * (rows as u32) {
            Tint::Red
        } else if 100 * (cy as u32) < 66 * (rows as u32) {
            Tint::Yellow
        } else {
            Tint::Green
        };
        let mut row: Vec<Tint> = Vec::new();
        let mut cx: u16 = 0;
        while cx < cols
            invariant
                canvas.wf(),
                canvas.spec_cols() == cols,
                canvas.spec_rows() == rows,
                cy < rows,
                cx <= cols,
                tier == tier_tint(cy as int, rows as int),
                row@.len() == cx,
                forall|ex: int|
                    0 <= ex < cx ==> #[trigger] row@[ex] == (if cell_any(
                        |x: int, y: int| canvas.lit(x, y),
                        ex,
                        cy as int,
                    ) {
                        tier
                    } else {
                        Tint::Dim
                    }),
            decreases cols - cx,
        {
            proof {
                canvas.lemma_cell_lit(cx as int, cy as int);
            }
            if canvas.bits(cx, cy) != 0 {
                row.push(tier);
            } else {
                row.push(Tint::Dim);
            }
            cx += 1;
        }
        tints.push(row);
        cy += 1;
    }
    let f = Frame { canvas, tints };
    proof {
        assert forall|cx: int, cy: int|
            #![trigger f.spec_tint(cx, cy)]
            0 <= cx < f.spec_cols() && 0 <= cy < rows implies f.spec_tint(cx, cy) == (if cell_any(
            |x: int, y: int| f.lit(x, y),
            cx,
            cy,
        ) {
            tier_tint(cy, rows as int)
        } else {
            Tint::Dim
        }) by {
            lemma_cell_any_equiv(
                |x: int, y: int| canvas.lit(x, y),
                |x: int, y: int| f.lit(x, y),
                cx,
                cy,
            );
        }
    }
    Some(f)
}

proof fn lemma_peak_of_zeros(levels: Seq<int>)
    requires
        forall|c: int| 0 <= c < levels.len() ==> levels[c] == 0,
    ensures
        peak_level(levels) == MAGNITUDE_FLOOR,
    decreases levels.len(),
{
    if levels.len() > 0 {
        lemma_peak_of_zeros(levels.drop_last());
    }
}

/// Silence draws nothing: where every magnitude of the transform is zero,
/// every column has level zero, every bar has height zero, and no pixel
/// belongs to a bar.
pub proof fn lemma_silence_draws_nothing(magnitudes: Seq<u32>, raw_bins: Seq<usize>, rows: int)
    requires
        rows >= 0,
        forall|i: int| 0 <= i < magnitudes.len() ==> magnitudes[i] == 0,
    ensures
        forall|c: int|
            0 <= c < raw_bins.len() ==> #[trigger] column_levels(magnitudes, raw_bins)[c] == 0,
        forall|c: int|
            0 <= c < raw_bins.len() ==> #[trigger] bar_heights(magnitudes, raw_bins, 4 * rows)[c]
                == 0,
        ({
            let heights = bar_heights(magnitudes, raw_bins, 4 * rows);
            forall|x: int, y: int| !#[trigger] bar_pixel(heights, rows, x, y)
        }),
{
    let levels = column_levels(magnitudes, raw_bins);
    assert forall|c: int| 0 <= c < raw_bins.len() implies #[trigger] levels[c] == 0 by {
        let n = magnitudes.len() as int;
        if n > 1 {
            let bin = column_bin(raw_bins[c] as int, n);
            assert(magnitudes[bin - 1] == 0);
            assert(magnitudes[bin] == 0);
            if bin + 1 <= n - 1 {
                assert(magnitudes[bin + 1] == 0);
            }
        }
    }
    lemma_peak_of_zeros(levels);
    let heights = bar_heights(magnitudes, raw_bins, 4 * rows);
    assert forall|c: int| 0 <= c < raw_bins.len() implies #[trigger] heights[c] == 0 by {
        assert(levels[c] == 0);
        assert(peak_level(levels) == 1000);
        let px_h = 4 * rows;
        assert((2 * 0int * px_h + 1000int) / (2 * 1000int) == 0) by (nonlinear_arith);
        assert(bar_height(0, 1000, px_h) == 0);
        assert(heights[c] == bar_height(levels[c], peak_level(levels), 4 * rows));
    }
    assert forall|x: int, y: int| !#[trigger] bar_pixel(heights, rows, x, y) by {
        if 0 <= x < 2 * heights.len() {
            assert(heights[x / 2] == 0);
        }
    }
}

/// The spectrum of silence is an empty display: where every magnitude
/// of the transform is zero, no pixel of the frame is lit, and every
/// cell shows the blank pattern in the dim tint.
pub proof fn lemma_silent_spectrum_is_blank(
    f: Frame,
    magnitudes: Seq<u32>,
    raw_bins: Seq<usize>,
    rows: u16,
)
    requires
        shows_spectrum(f, magnitudes, raw_bins, rows),
        forall|i: int| 0 <= i < magnitudes.len() ==> magnitudes[i] == 0,
    ensures
        forall|x: int, y: int| !f.lit(x, y),
        forall|cx: int, cy: int|
            0 <= cx < raw_bins.len() && 0 <= cy < rows ==> #[trigger] f.spec_glyph(cx, cy)
                == '\u{2800}',
        forall|cx: int, cy: int|
            0 <= cx < raw_bins.len() && 0 <= cy < rows ==> #[trigger] f.spec_tint(cx, cy)
                == Tint::Dim,
{
    lemma_silence_draws_nothing(magnitudes, raw_bins, rows as int);
    assert forall|x: int, y: int| !f.lit(x, y) by {
        assert(!bar_pixel(bar_heights(magnitudes, raw_bins, 4 * rows), rows as int, x, y));
    }
    assert forall|cx: int, cy: int| 0 <= cx < raw_bins.len() && 0 <= cy < rows implies {
        &&& #[trigger] f.spec_glyph(cx, cy) == '\u{2800}'
        &&& f.spec_tint(cx, cy) == Tint::Dim
    } by {
        f.lemma_glyph(cx, cy);
        assert(!cell_any(|x: int, y: int| f.lit(x, y), cx, cy));
    }
}

/// With one channel the vectorscope collapses to the vertical line
/// through the centre: every frame falls on the centre column.
pub proof fn lemma_mono_is_vertical(
    samples: Seq<i16>,
    channels: u16,
    cols: int,
    rows: int,
    i: int,
    x: int,
    y: int,
)
    requires
        channels <= 1,
        cols >= 1,
        vector_hit(samples, channels, cols, rows, i, x, y),
    ensures
        x == cols,
{
    let l = frame_left(samples, channels, i);
    let r = frame_right(samples, channels, i);
    assert(l == r);
    assert((l - r) * 707 * scope_radius(cols, rows) == 0) by (nonlinear_arith)
        requires
            l == r,
    ;
}

} // verus!
