//! A dot-addressable canvas: every terminal cell carries a 2x4 grid of dots,
//! stored as one bitmask per cell and shown as a braille character.

use vstd::prelude::*;

verus! {

/// Code point of the braille pattern with no dot raised.
pub const BRAILLE_BASE: u32 = 0x2800;

/// Bitmask of the dot in column `dx` (0 or 1) and row `dy` (0 to 3) of a cell.
pub open spec fn spec_dot_mask(dx: int, dy: int) -> u8 {
    if dx == 0 {
        if dy == 0 {
            0x01u8
        } else if dy == 1 {
            0x02u8
        } else if dy == 2 {
            0x04u8
        } else {
            0x40u8
        }
    } else {
        if dy == 0 {
            0x08u8
        } else if dy == 1 {
            0x10u8
        } else if dy == 2 {
            0x20u8
        } else {
            0x80u8
        }
    }
}

/// True if `m` is the mask of exactly one dot.
pub open spec fn single_dot(m: u8) -> bool {
    m == 0x01u8 || m == 0x02u8 || m == 0x04u8 || m == 0x40u8 || m == 0x08u8 || m == 0x10u8 || m
        == 0x20u8 || m == 0x80u8
}

/// The braille character that shows the dots of `bits`.
pub open spec fn braille_char(bits: u8) -> char {
    (BRAILLE_BASE + bits) as char
}

/// True if a predicate on pixels holds of one of the eight pixels of cell `(cx, cy)`.
pub open spec fn cell_any(p: spec_fn(int, int) -> bool, cx: int, cy: int) -> bool {
    exists|x: int, y: int|
        2 * cx <= x < 2 * cx + 2 && 4 * cy <= y < 4 * cy + 4 && #[trigger] p(x, y)
}

/// The mask of dot `(dx, dy)` of cell `(cx, cy)` where a predicate holds
/// of the dot's pixel, and no bit where it does not.
pub open spec fn dot_bit(p: spec_fn(int, int) -> bool, cx: int, cy: int, dx: int, dy: int) -> u8 {
    if p(2 * cx + dx, 4 * cy + dy) {
        spec_dot_mask(dx, dy)
    } else {
        0u8
    }
}

/// The bitmask of cell `(cx, cy)` that raises exactly the dots of whose
/// pixels a predicate holds.
pub open spec fn cell_bits(p: spec_fn(int, int) -> bool, cx: int, cy: int) -> u8 {
    dot_bit(p, cx, cy, 0, 0) | dot_bit(p, cx, cy, 0, 1) | dot_bit(p, cx, cy, 0, 2) | dot_bit(
        p,
        cx,
        cy,
        0,
        3,
    ) | dot_bit(p, cx, cy, 1, 0) | dot_bit(p, cx, cy, 1, 1) | dot_bit(p, cx, cy, 1, 2) | dot_bit(
        p,
        cx,
        cy,
        1,
        3,
    )
}

/// A bitmask is the union of the dots that it holds.
proof fn lemma_join_dots(m: u8, a: u8, b: u8, c: u8, d: u8, e: u8, f: u8, g: u8, h: u8)
    by (bit_vector)
    requires
        a == (if m & 0x01u8 != 0 { 0x01u8 } else { 0u8 }),
        b == (if m & 0x02u8 != 0 { 0x02u8 } else { 0u8 }),
        c == (if m & 0x04u8 != 0 { 0x04u8 } else { 0u8 }),
        d == (if m & 0x40u8 != 0 { 0x40u8 } else { 0u8 }),
        e == (if m & 0x08u8 != 0 { 0x08u8 } else { 0u8 }),
        f == (if m & 0x10u8 != 0 { 0x10u8 } else { 0u8 }),
        g == (if m & 0x20u8 != 0 { 0x20u8 } else { 0u8 }),
        h == (if m & 0x80u8 != 0 { 0x80u8 } else { 0u8 }),
    ensures
        m == a | b | c | d | e | f | g | h,
{
}

proof fn lemma_or_dot(m: u8, a: u8, b: u8)
    by (bit_vector)
    requires
        a == 0x01u8 || a == 0x02u8 || a == 0x04u8 || a == 0x40u8 || a == 0x08u8 || a == 0x10u8
            || a == 0x20u8 || a == 0x80u8,
        b == 0x01u8 || b == 0x02u8 || b == 0x04u8 || b == 0x40u8 || b == 0x08u8 || b == 0x10u8
            || b == 0x20u8 || b == 0x80u8,
    ensures
        ((m | a) & b != 0) <==> ((m & b != 0) || a == b),
{
}

proof fn lemma_any_dot(m: u8)
    by (bit_vector)
    ensures
        m != 0 <==> (m & 0x01u8 != 0 || m & 0x02u8 != 0 || m & 0x04u8 != 0 || m & 0x40u8 != 0 || m
            & 0x08u8 != 0 || m & 0x10u8 != 0 || m & 0x20u8 != 0 || m & 0x80u8 != 0),
{
}

proof fn lemma_masked_dot(m: u8, r: u8, b: u8)
    by (bit_vector)
    requires
        b == 0x01u8 || b == 0x02u8 || b == 0x04u8 || b == 0x40u8 || b == 0x08u8 || b == 0x10u8
            || b == 0x20u8 || b == 0x80u8,
    ensures
        ((m & !r) & b != 0) <==> (m & b != 0 && r & b == 0),
{
}

proof fn lemma_zero_dot(b: u8)
    by (bit_vector)
    ensures
        0u8 & b == 0,
{
}

/// A dot that a nonzero bitmask holds.
proof fn lemma_pick_dot(m: u8) -> (d: (int, int))
    requires
        m != 0,
    ensures
        0 <= d.0 < 2,
        0 <= d.1 < 4,
        m & spec_dot_mask(d.0, d.1) != 0,
{
    lemma_any_dot(m);
    if m & 0x01u8 != 0 {
        (0, 0)
    } else if m & 0x02u8 != 0 {
        (0, 1)
    } else if m & 0x04u8 != 0 {
        (0, 2)
    } else if m & 0x40u8 != 0 {
        (0, 3)
    } else if m & 0x08u8 != 0 {
        (1, 0)
    } else if m & 0x10u8 != 0 {
        (1, 1)
    } else if m & 0x20u8 != 0 {
        (1, 2)
    } else {
        (1, 3)
    }
}

/// Each of the eight dots has a mask of its own.
proof fn lemma_dot_masks(dx: int, dy: int, ex: int, ey: int)
    requires
        0 <= dx < 2,
        0 <= dy < 4,
        0 <= ex < 2,
        0 <= ey < 4,
    ensures
        single_dot(spec_dot_mask(dx, dy)),
        spec_dot_mask(dx, dy) == spec_dot_mask(ex, ey) <==> (dx == ex && dy == ey),
{
}

proof fn lemma_cell_index(cols: int, rows: int, cx: int, cy: int)
    by (nonlinear_arith)
    requires
        0 <= cx < cols <= 0xFFFF,
        0 <= cy < rows <= 0xFFFF,
    ensures
        0 <= cy * cols <= cy * cols + cx < cols * rows <= 0xFFFE_0001,
{
}

proof fn lemma_area_bound(cols: int, rows: int)
    by (nonlinear_arith)
    requires
        0 <= cols <= 0xFFFF,
        0 <= rows <= 0xFFFF,
    ensures
        0 <= cols * rows <= 0xFFFE_0001,
{
}

proof fn lemma_cell_index_injective(cols: int, cx: int, cy: int, ex: int, ey: int)
    by (nonlinear_arith)
    requires
        0 <= cx < cols,
        0 <= ex < cols,
        cy * cols + cx == ey * cols + ex,
    ensures
        cx == ex,
        cy == ey,
{
}

/// The mask of one dot of a cell.
pub fn dot_mask(dx: usize, dy: usize) -> (m: u8)
    requires
        dx < 2,
        dy < 4,
    ensures
        m == spec_dot_mask(dx as int, dy as int),
{
    if dx == 0 {
        if dy == 0 {
            0x01
        } else if dy == 1 {
            0x02
        } else if dy == 2 {
            0x04
        } else {
            0x40
        }
    } else {
        if dy == 0 {
            0x08
        } else if dy == 1 {
            0x10
        } else if dy == 2 {
            0x20
        } else {
            0x80
        }
    }
}

/// A grid of `cols` by `rows` terminal cells, that is `2 * cols` by `4 * rows` pixels.
pub struct Canvas {
    cols: u16,
    rows: u16,
    cells: Vec<u8>,
}

impl Canvas {
    /// The canvas holds one bitmask for each of its cells.
    pub closed spec fn wf(&self) -> bool {
        self.cells@.len() == self.cols as int * self.rows as int
    }

    /// Number of cell columns.
    pub closed spec fn spec_cols(&self) -> u16 {
        self.cols
    }

    /// Number of cell rows.
    pub closed spec fn spec_rows(&self) -> u16 {
        self.rows
    }

    /// The dots of cell `(cx, cy)` as a bitmask.
    pub closed spec fn spec_bits(&self, cx: int, cy: int) -> u8 {
        self.cells@[cy * self.cols as int + cx]
    }

    /// Width in pixels.
    pub open spec fn px_width(&self) -> int {
        2 * self.spec_cols() as int
    }

    /// Height in pixels.
    pub open spec fn px_height(&self) -> int {
        4 * self.spec_rows() as int
    }

    /// True if pixel `(x, y)` lies on the canvas and its dot is raised.
    pub open spec fn lit(&self, x: int, y: int) -> bool {
        &&& 0 <= x < self.px_width()
        &&& 0 <= y < self.px_height()
        &&& self.spec_bits(x / 2, y / 4) & spec_dot_mask(x % 2, y % 4) != 0
    }

    /// True if no pixel is lit.
    pub open spec fn blank(&self) -> bool {
        forall|x: int, y: int| !self.lit(x, y)
    }

    /// A canvas of the given size with no dot raised.
    pub fn new(cols: u16, rows: u16) -> (c: Canvas)
        ensures
            c.wf(),
            c.spec_cols() == cols,
            c.spec_rows() == rows,
            c.blank(),
            forall|cx: int, cy: int| 0 <= cx < cols && 0 <= cy < rows ==> c.spec_bits(cx, cy) == 0,
    {
        proof {
            lemma_area_bound(cols as int, rows as int);
        }
        let n: usize = cols as usize * rows as usize;
        let mut cells: Vec<u8> = Vec::new();
        let mut i: usize = 0;
        while i < n
            invariant
                i <= n,
                cells@.len() == i,
                forall|k: int| 0 <= k < i ==> cells@[k] == 0u8,
            decreases n - i,
        {
            cells.push(0u8);
            i += 1;
        }
        let c = Canvas { cols, rows, cells };
        proof {
            assert forall|cx: int, cy: int| 0 <= cx < cols && 0 <= cy < rows implies c.spec_bits(
                cx,
                cy,
            ) == 0 by {
                lemma_cell_index(cols as int, rows as int, cx, cy);
            }
            assert forall|x: int, y: int| !c.lit(x, y) by {
                if 0 <= x < c.px_width() && 0 <= y < c.px_height() {
                    lemma_cell_index(cols as int, rows as int, x / 2, y / 4);
                    lemma_zero_dot(spec_dot_mask(x % 2, y % 4));
                }
            }
        }
        c
    }

    #[verifier::when_used_as_spec(spec_cols)]
    pub fn cols(&self) -> (r: u16)
        ensures
            r == self.spec_cols(),
    {
        self.cols
    }

    #[verifier::when_used_as_spec(spec_rows)]
    pub fn rows(&self) -> (r: u16)
        ensures
            r == self.spec_rows(),
    {
        self.rows
    }

    /// The bitmask of cell `(cx, cy)`.
    pub fn bits(&self, cx: u16, cy: u16) -> (b: u8)
        requires
            self.wf(),
            cx < self.spec_cols(),
            cy < self.spec_rows(),
        ensures
            b == self.spec_bits(cx as int, cy as int),
    {
        proof {
            lemma_cell_index(self.cols as int, self.rows as int, cx as int, cy as int);
        }
        self.cells[cy as usize * self.cols as usize + cx as usize]
    }

    /// Raises the dot of pixel `(x, y)`. A pixel off the canvas is skipped.
    pub fn plot(&mut self, x: usize, y: usize)
        requires
            old(self).wf(),
        ensures
            final(self).wf(),
            final(self).spec_cols() == old(self).spec_cols(),
            final(self).spec_rows() == old(self).spec_rows(),
            forall|x2: int, y2: int|
                #![trigger final(self).lit(x2, y2)]
                final(self).lit(x2, y2) <==> (old(self).lit(x2, y2) || (x2 == x && y2 == y && x
                    < old(self).px_width() && y < old(self).px_height())),
    {
        let cx = x / 2;
        let cy = y / 4;
        if cx < self.cols as usize && cy < self.rows as usize {
            proof {
                lemma_cell_index(self.cols as int, self.rows as int, cx as int, cy as int);
            }
            let i = cy * self.cols as usize + cx;
            let mask = dot_mask(x % 2, y % 4);
            let before = self.cells[i];
            self.cells.set(i, before | mask);
            proof {
                let cols = self.cols as int;
                let rows = self.rows as int;
                assert forall|x2: int, y2: int|
                    #![trigger self.lit(x2, y2)]
                    self.lit(x2, y2) <==> (old(self).lit(x2, y2) || (x2 == x && y2 == y)) by {
                    if 0 <= x2 < 2 * cols && 0 <= y2 < 4 * rows {
                        let ex = x2 / 2;
                        let ey = y2 / 4;
                        lemma_cell_index(cols, rows, ex, ey);
                        lemma_dot_masks(x as int % 2, y as int % 4, x2 % 2, y2 % 4);
                        if ey * cols + ex == i as int {
                            lemma_cell_index_injective(cols, cx as int, cy as int, ex, ey);
                            lemma_or_dot(before, mask, spec_dot_mask(x2 % 2, y2 % 4));
                        }
                    }
                }
            }
        }
    }

    /// A canvas with the same dots.
    pub fn duplicate(&self) -> (c: Canvas)
        requires
            self.wf(),
        ensures
            c.wf(),
            c.spec_cols() == self.spec_cols(),
            c.spec_rows() == self.spec_rows(),
            forall|x: int, y: int| c.lit(x, y) == self.lit(x, y),
            forall|cx: int, cy: int|
                0 <= cx < self.spec_cols() && 0 <= cy < self.spec_rows() ==> c.spec_bits(cx, cy)
                    == self.spec_bits(cx, cy),
    {
        let n = self.cells.len();
        let mut cells: Vec<u8> = Vec::new();
        let mut i: usize = 0;
        while i < n
            invariant
                i <= n,
                n == self.cells@.len(),
                cells@.len() == i,
                forall|k: int| 0 <= k < i ==> cells@[k] == self.cells@[k],
            decreases n - i,
        {
            cells.push(self.cells[i]);
            i += 1;
        }
        let c = Canvas { cols: self.cols, rows: self.rows, cells };
        proof {
            assert(c.cells@ =~= self.cells@);
        }
        c
    }

    /// A cell's bitmask is zero exactly if none of its eight pixels is lit.
    pub proof fn lemma_cell_lit(&self, cx: int, cy: int)
        requires
            self.wf(),
            0 <= cx < self.spec_cols(),
            0 <= cy < self.spec_rows(),
        ensures
            self.spec_bits(cx, cy) != 0 <==> cell_any(|x: int, y: int| self.lit(x, y), cx, cy),
    {
        let m = self.spec_bits(cx, cy);
        let p = |x: int, y: int| self.lit(x, y);
        lemma_any_dot(m);
        if m != 0 {
            let d = lemma_pick_dot(m);
            let x = 2 * cx + d.0;
            let y = 4 * cy + d.1;
            assert(x / 2 == cx && y / 4 == cy && x % 2 == d.0 && y % 4 == d.1);
            assert(self.lit(x, y));
            assert(p(x, y));
        }
        if cell_any(p, cx, cy) {
            let (x, y) = choose|x: int, y: int|
                2 * cx <= x < 2 * cx + 2 && 4 * cy <= y < 4 * cy + 4 && #[trigger] p(x, y);
            assert(x / 2 == cx && y / 4 == cy);
            assert(self.lit(x, y));
            assert(self.spec_bits(x / 2, y / 4) == m);
            assert(m & spec_dot_mask(x % 2, y % 4) != 0);
            lemma_dot_masks(x % 2, y % 4, 0, 0);
        }
    }

    /// A cell's bitmask raises exactly the dots whose pixels are lit.
    pub proof fn lemma_cell_bits(&self, cx: int, cy: int)
        requires
            self.wf(),
            0 <= cx < self.spec_cols(),
            0 <= cy < self.spec_rows(),
        ensures
            self.spec_bits(cx, cy) == cell_bits(|x: int, y: int| self.lit(x, y), cx, cy),
    {
        let m = self.spec_bits(cx, cy);
        let p = |x: int, y: int| self.lit(x, y);
        assert forall|dx: int, dy: int| 0 <= dx < 2 && 0 <= dy < 4 implies #[trigger] dot_bit(
            p,
            cx,
            cy,
            dx,
            dy,
        ) == (if m & spec_dot_mask(dx, dy) != 0 {
            spec_dot_mask(dx, dy)
        } else {
            0u8
        }) by {
            let x = 2 * cx + dx;
            let y = 4 * cy + dy;
            assert(x / 2 == cx && y / 4 == cy && x % 2 == dx && y % 4 == dy);
            assert(p(x, y) == self.lit(x, y));
        }
        lemma_join_dots(
            m,
            dot_bit(p, cx, cy, 0, 0),
            dot_bit(p, cx, cy, 0, 1),
            dot_bit(p, cx, cy, 0, 2),
            dot_bit(p, cx, cy, 0, 3),
            dot_bit(p, cx, cy, 1, 0),
            dot_bit(p, cx, cy, 1, 1),
            dot_bit(p, cx, cy, 1, 2),
            dot_bit(p, cx, cy, 1, 3),
        );
    }

    /// What `bits & !reference` of a cell says in terms of pixels: some pixel
    /// of the cell is lit here and not lit on `reference`.
    pub proof fn lemma_cell_beyond(&self, reference: &Canvas, cx: int, cy: int)
        requires
            self.wf(),
            reference.wf(),
            reference.spec_cols() == self.spec_cols(),
            reference.spec_rows() == self.spec_rows(),
            0 <= cx < self.spec_cols(),
            0 <= cy < self.spec_rows(),
        ensures
            (self.spec_bits(cx, cy) & !reference.spec_bits(cx, cy)) != 0 <==> cell_any(
                |x: int, y: int| self.lit(x, y) && !reference.lit(x, y),
                cx,
                cy,
            ),
    {
        let m = self.spec_bits(cx, cy);
        let r = reference.spec_bits(cx, cy);
        let d = m & !r;
        let p = |x: int, y: int| self.lit(x, y) && !reference.lit(x, y);
        lemma_any_dot(d);
        if d != 0 {
            let k = lemma_pick_dot(d);
            let b = spec_dot_mask(k.0, k.1);
            let x = 2 * cx + k.0;
            let y = 4 * cy + k.1;
            lemma_dot_masks(k.0, k.1, 0, 0);
            lemma_masked_dot(m, r, b);
            assert(x / 2 == cx && y / 4 == cy && x % 2 == k.0 && y % 4 == k.1);
            assert(self.lit(x, y));
            assert(!reference.lit(x, y));
            assert(p(x, y));
        }
        if cell_any(p, cx, cy) {
            let (x, y) = choose|x: int, y: int|
                2 * cx <= x < 2 * cx + 2 && 4 * cy <= y < 4 * cy + 4 && #[trigger] p(x, y);
            let b = spec_dot_mask(x % 2, y % 4);
            assert(x / 2 == cx && y / 4 == cy);
            assert(self.lit(x, y) && !reference.lit(x, y));
            assert(self.spec_bits(x / 2, y / 4) == m);
            assert(reference.spec_bits(x / 2, y / 4) == r);
            assert(m & b != 0);
            assert(r & b == 0);
            lemma_dot_masks(x % 2, y % 4, 0, 0);
            lemma_masked_dot(m, r, b);
            assert(d & b != 0);
        }
    }

    /// Tells whether the dot of pixel `(x, y)` is raised.
    pub fn is_lit(&self, x: usize, y: usize) -> (b: bool)
        requires
            self.wf(),
        ensures
            b == self.lit(x as int, y as int),
    {
        let cx = x / 2;
        let cy = y / 4;
        if cx < self.cols as usize && cy < self.rows as usize {
            proof {
                lemma_cell_index(self.cols as int, self.rows as int, cx as int, cy as int);
            }
            let i = cy * self.cols as usize + cx;
            (self.cells[i] & dot_mask(x % 2, y % 4)) != 0
        } else {
            false
        }
    }
}

} // verus!
