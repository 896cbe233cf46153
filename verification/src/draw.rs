//! XOR sprite compositing: an N-byte-tall, 8-pixel-wide bitmap is read from
//! memory and toggled onto the display at toroidally wrapped coordinates.
//!
//! The specification is pointwise.  A pixel position decomposes into a row
//! and a column; subtracting the sprite's origin modulo the screen height
//! and width yields the unique sprite row and bit that land on it, if any.
//! Rows are at most 15 and bits at most 8, fewer than the screen's 32 rows
//! and 64 columns, so no two sprite bits land on one pixel.

use vstd::prelude::*;
use vstd::arithmetic::div_mod::{
    lemma_add_mod_noop_right, lemma_div_pos_is_pos, lemma_fundamental_div_mod,
    lemma_fundamental_div_mod_converse, lemma_mod_division_less_than_divisor,
    lemma_multiply_divide_lt, lemma_small_mod, lemma_sub_mod_noop, lemma_sub_mod_noop_right,
};
use crate::cpu::{Cpu, CpuView, DISPLAY_SIZE, MEM_SIZE, SCREEN_HEIGHT, SCREEN_WIDTH};

verus! {

/// Whether bit `j` (0 is leftmost) of a sprite byte is set.
pub open spec fn sprite_bit(b: u8, j: int) -> bool {
    (b >> ((7 - j) as u8)) & 1 == 1
}

/// The sprite row that lands on the display row holding pixel `p`, for a
/// sprite drawn at vertical origin `y`.
pub open spec fn row_offset(y: int, p: int) -> int {
    (p / 64 - y) % 32
}

/// The sprite bit position that lands on the display column holding pixel
/// `p`, for a sprite drawn at horizontal origin `x`.
pub open spec fn col_offset(x: int, p: int) -> int {
    (p % 64 - x) % 64
}

/// Whether drawing rows `0..rows`, plus bits `0..bits` of row `rows`, of
/// the sprite at `mem[index..]` toggles pixel `p`.
pub open spec fn toggles_upto(
    mem: Seq<u8>,
    index: int,
    x: int,
    y: int,
    rows: int,
    bits: int,
    p: int,
) -> bool {
    let i = row_offset(y, p);
    let j = col_offset(x, p);
    &&& j < 8
    &&& (i < rows || (i == rows && j < bits))
    &&& sprite_bit(mem[index + i], j)
}

/// Whether drawing the whole `rows`-byte sprite toggles pixel `p`.
pub open spec fn toggles(mem: Seq<u8>, index: int, x: int, y: int, rows: int, p: int) -> bool {
    toggles_upto(mem, index, x, y, rows, 0, p)
}

/// The display after the sprite is XOR-composited onto `disp`.
pub open spec fn draw_display(
    disp: Seq<bool>,
    mem: Seq<u8>,
    index: int,
    x: int,
    y: int,
    rows: int,
) -> Seq<bool> {
    Seq::new(disp.len(), |p: int| disp[p] != toggles(mem, index, x, y, rows, p))
}

/// Whether a partial draw (as in `toggles_upto`) turns any set pixel off.
pub open spec fn collides_upto(
    disp: Seq<bool>,
    mem: Seq<u8>,
    index: int,
    x: int,
    y: int,
    rows: int,
    bits: int,
) -> bool {
    exists|p: int|
        0 <= p < disp.len() && toggles_upto(mem, index, x, y, rows, bits, p) && disp[p]
}

/// Whether drawing the whole sprite turns any set pixel off: the collision
/// flag of `DrawSprite`.
pub open spec fn collides(
    disp: Seq<bool>,
    mem: Seq<u8>,
    index: int,
    x: int,
    y: int,
    rows: int,
) -> bool {
    collides_upto(disp, mem, index, x, y, rows, 0)
}

/// Subtracting a base modulo `m` inverts adding it: the pixel written for
/// sprite row or bit `off` maps back to `off`.
proof fn lemma_offset_round_trip(base: int, off: int, m: int)
    requires
        0 < m,
        0 <= off < m,
    ensures
        ((base + off) % m - base) % m == off,
{
    lemma_sub_mod_noop(base + off, base, m);
    lemma_sub_mod_noop_right((base + off) % m, base, m);
    lemma_small_mod(off as nat, m as nat);
}

/// Adding the base back inverts the offset: a row or column value is
/// recovered from its offset from the base.
proof fn lemma_offset_reconstruct(base: int, v: int, m: int)
    requires
        0 < m,
        0 <= v < m,
    ensures
        (base + ((v - base) % m)) % m == v,
{
    lemma_mod_division_less_than_divisor(v - base, m);
    lemma_add_mod_noop_right(base, v - base, m);
    lemma_small_mod(v as nat, m as nat);
}

/// A pixel position decomposes uniquely into its column and row.
proof fn lemma_pixel_coords(p: int)
    requires
        0 <= p < 2048,
    ensures
        p % 64 + (p / 64) * 64 == p,
        0 <= p % 64 < 64,
        0 <= p / 64 < 32,
{
    lemma_fundamental_div_mod(p, 64);
    lemma_mod_division_less_than_divisor(p, 64);
    lemma_multiply_divide_lt(p, 64, 32);
    lemma_div_pos_is_pos(p, 64);
}

/// The pixel written for sprite row `i` and bit `j` lies on the display,
/// and its row and column offsets are exactly `i` and `j`.
pub(crate) proof fn lemma_pix(x: int, y: int, i: int, j: int)
    requires
        0 <= x,
        0 <= y,
        0 <= i < 32,
        0 <= j < 64,
    ensures
        ({
            let q = (x + j) % 64 + ((y + i) % 32) * 64;
            &&& 0 <= q < 2048
            &&& row_offset(y, q) == i
            &&& col_offset(x, q) == j
        }),
{
    let q = (x + j) % 64 + ((y + i) % 32) * 64;
    lemma_mod_division_less_than_divisor(x + j, 64);
    lemma_mod_division_less_than_divisor(y + i, 32);
    lemma_fundamental_div_mod_converse(q, 64, (y + i) % 32, (x + j) % 64);
    lemma_offset_round_trip(y, i, 32);
    lemma_offset_round_trip(x, j, 64);
}

/// Conversely, every pixel is the one written for its own row and column
/// offsets: no other sprite row and bit reach it.
proof fn lemma_pix_unique(x: int, y: int, p: int)
    requires
        0 <= x,
        0 <= y,
        0 <= p < 2048,
    ensures
        0 <= row_offset(y, p) < 32,
        0 <= col_offset(x, p) < 64,
        p == (x + col_offset(x, p)) % 64 + ((y + row_offset(y, p)) % 32) * 64,
{
    lemma_pixel_coords(p);
    lemma_mod_division_less_than_divisor(p / 64 - y, 32);
    lemma_mod_division_less_than_divisor(p % 64 - x, 64);
    lemma_offset_reconstruct(y, p / 64, 32);
    lemma_offset_reconstruct(x, p % 64, 64);
}

impl Cpu {
    /// XOR-blits the `size`-byte sprite at the index register onto the
    /// display at wrapped coordinates `(x, y)`, sets the flag register to 1
    /// exactly when some pixel was turned off, and marks the display for
    /// redraw.  The program counter is not moved.
    pub fn draw_sprite(&mut self, x: usize, y: usize, size: usize)
        requires
            old(self).wf(),
            x < 256,
            y < 256,
            size < 16,
            old(self)@.index + size <= MEM_SIZE,
        ensures
            final(self).wf(),
            final(self)@ == (CpuView {
                display: draw_display(
                    old(self)@.display,
                    old(self)@.memory,
                    old(self)@.index as int,
                    x as int,
                    y as int,
                    size as int,
                ),
                registers: old(self)@.registers.update(
                    15,
                    if collides(
                        old(self)@.display,
                        old(self)@.memory,
                        old(self)@.index as int,
                        x as int,
                        y as int,
                        size as int,
                    ) { 1u8 } else { 0u8 },
                ),
                should_rerender: true,
                ..old(self)@
            }),
    {
        let ghost pre = self@;
        let ghost mem = pre.memory;
        let ghost idx = pre.index as int;
        let mut coll = false;
        let mut i: usize = 0;
        while i < size
            invariant
                pre.wf(),
                x < 256,
                y < 256,
                size < 16,
                idx == pre.index,
                mem == pre.memory,
                idx + size <= MEM_SIZE,
                i <= size,
                self@ == (CpuView {
                    display: Seq::new(DISPLAY_SIZE as nat, |p: int|
                        pre.display[p] != toggles_upto(mem, idx, x as int, y as int, i as int, 0, p)),
                    ..pre
                }),
                coll == collides_upto(pre.display, mem, idx, x as int, y as int, i as int, 0),
            decreases size - i,
        {
            let yy = (y + i) % SCREEN_HEIGHT;
            let byte = self.memory[self.index + i];
            let mut j: usize = 0;
            while j < 8
                invariant
                    pre.wf(),
                    x < 256,
                    y < 256,
                    size < 16,
                    i < size,
                    idx == pre.index,
                    mem == pre.memory,
                    idx + size <= MEM_SIZE,
                    yy == (y + i) % 32,
                    byte == mem[idx + i],
                    j <= 8,
                    self@ == (CpuView {
                        display: Seq::new(DISPLAY_SIZE as nat, |p: int|
                            pre.display[p] != toggles_upto(
                                mem, idx, x as int, y as int, i as int, j as int, p)),
                        ..pre
                    }),
                    coll == collides_upto(pre.display, mem, idx, x as int, y as int, i as int, j as int),
                decreases 8 - j,
            {
                let xx = (x + j) % SCREEN_WIDTH;
                let q = xx + yy * SCREEN_WIDTH;
                proof {
                    lemma_pix(x as int, y as int, i as int, j as int);
                }
                let shift: u8 = (7 - j) as u8;
                let bit = ((byte >> shift) & 1) == 1;
                let cur = self.display[q];
                self.display.set(q, cur != bit);
                let was_set = bit && cur;
                let ghost coll0 = coll;
                if was_set {
                    coll = true;
                }
                proof {
                    assert(bit == sprite_bit(byte, j as int));
                    // the pixel just written is untouched by earlier rows and
                    // bits, and every other pixel keeps its old toggle state
                    assert forall|p: int| 0 <= p < DISPLAY_SIZE && p != q implies
                        toggles_upto(mem, idx, x as int, y as int, i as int, (j + 1) as int, p)
                            == toggles_upto(mem, idx, x as int, y as int, i as int, j as int, p)
                    by {
                        if row_offset(y as int, p) == i && col_offset(x as int, p) == j {
                            lemma_pix_unique(x as int, y as int, p);
                        }
                    }
                    assert(self@.display =~= Seq::new(DISPLAY_SIZE as nat, |p: int|
                        pre.display[p] != toggles_upto(
                            mem, idx, x as int, y as int, i as int, (j + 1) as int, p)));
                    let new_coll = collides_upto(
                        pre.display, mem, idx, x as int, y as int, i as int, (j + 1) as int);
                    if coll0 {
                        let p0 = choose|p: int|
                            0 <= p < pre.display.len()
                                && toggles_upto(mem, idx, x as int, y as int, i as int, j as int, p)
                                && pre.display[p];
                        assert(toggles_upto(
                            mem, idx, x as int, y as int, i as int, (j + 1) as int, p0));
                        assert(new_coll);
                    } else if was_set {
                        assert(toggles_upto(
                            mem, idx, x as int, y as int, i as int, (j + 1) as int, q as int));
                        assert(new_coll);
                    } else if new_coll {
                        let p0 = choose|p: int|
                            0 <= p < pre.display.len()
                                && toggles_upto(
                                    mem, idx, x as int, y as int, i as int, (j + 1) as int, p)
                                && pre.display[p];
                        if p0 != q {
                            assert(toggles_upto(
                                mem, idx, x as int, y as int, i as int, j as int, p0));
                        }
                        assert(false);
                    }
                    assert(coll == new_coll);
                }
                j = j + 1;
            }
            proof {
                assert(self@.display =~= Seq::new(DISPLAY_SIZE as nat, |p: int|
                    pre.display[p] != toggles_upto(
                        mem, idx, x as int, y as int, (i + 1) as int, 0, p)));
                assert(collides_upto(pre.display, mem, idx, x as int, y as int, i as int, 8)
                    == collides_upto(pre.display, mem, idx, x as int, y as int, (i + 1) as int, 0));
            }
            i = i + 1;
        }
        let flag: u8 = if coll { 1 } else { 0 };
        self.registers.set(15, flag);
        self.should_rerender = true;
        proof {
            assert(self@ =~= (CpuView {
                display: draw_display(pre.display, mem, idx, x as int, y as int, size as int),
                registers: pre.registers.update(
                    15,
                    if collides(pre.display, mem, idx, x as int, y as int, size as int) { 1u8 } else { 0u8 },
                ),
                should_rerender: true,
                ..pre
            }));
        }
    }
}

} // verus!
