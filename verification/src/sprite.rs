//! The collision-detecting sprite-drawing algorithm.
//!
//! A sprite is `n` consecutive memory bytes, each one 8-pixel-wide row with
//! the most significant bit leftmost.  Every set bit toggles the framebuffer
//! cell it lands on; a toggle that turns an already-on cell off is a
//! collision.  Coordinates wrap modulo the 64x64 grid, the conventional
//! CHIP-8 policy for sprites that leave the screen.

use vstd::prelude::*;

verus! {

use crate::mem::{
    gfx_index, low_byte, Mem, MemView, GRAPHICS_SIZE, MEMORY_SIZE,
};
use vstd::arithmetic::div_mod::{lemma_fundamental_div_mod, lemma_mod_bound};

/// Whether sprite-row byte `b` has the bit for column `col` set; column 0 is
/// the most significant bit.
pub open spec fn sprite_bit(b: u8, col: int) -> bool {
    (b >> ((7 - col) as u8)) & 1 == 1
}

/// The framebuffer cell a sprite bit lands on: both coordinates wrap modulo
/// the grid size.
pub open spec fn wrapped_index(cx: u8, cy: u8, col: int, row: int) -> int {
    gfx_index((cx + col) % 64, (cy + row) % 64)
}

/// One toggle of a packed cell: the on/off byte is flipped between 0 and 1
/// and the opaque alpha byte is set, exactly as `store_graphics` packs it.
pub open spec fn toggled(v: u32) -> u32 {
    ((low_byte(v) ^ 1) as u32) | 0xFF00
}

/// Whether a packed cell is on: its luminance byte is exactly 1.
pub open spec fn cell_lit(v: u32) -> bool {
    low_byte(v) == 1
}

/// The framebuffer and collision flag after the first `k` columns of the
/// sprite row `row`, whose byte is `b`, have been drawn onto `g`.
pub open spec fn draw_row(g: Seq<u32>, b: u8, cx: u8, cy: u8, row: int, k: int) -> (Seq<u32>, bool)
    decreases k,
{
    if k <= 0 {
        (g, false)
    } else {
        let (g1, c1) = draw_row(g, b, cx, cy, row, k - 1);
        let col = k - 1;
        if sprite_bit(b, col) {
            let p = wrapped_index(cx, cy, col, row);
            (g1.update(p, toggled(g1[p])), c1 || cell_lit(g1[p]))
        } else {
            (g1, c1)
        }
    }
}

/// The framebuffer and collision flag after the first `k` rows of the sprite
/// held at `bytes[idx ..]` have been drawn onto `g`.
pub open spec fn draw_rows(g: Seq<u32>, bytes: Seq<u8>, idx: int, cx: u8, cy: u8, k: int) -> (
    Seq<u32>,
    bool,
)
    decreases k,
{
    if k <= 0 {
        (g, false)
    } else {
        let (g1, c1) = draw_rows(g, bytes, idx, cx, cy, k - 1);
        let (g2, c2) = draw_row(g1, bytes[idx + k - 1], cx, cy, k - 1, 8);
        (g2, c1 || c2)
    }
}

/// Whether some set bit among the first `k` columns of the sprite row `row`,
/// whose byte is `b`, lands on the framebuffer cell `p`.
pub open spec fn row_covers(b: u8, cx: u8, cy: u8, row: int, k: int, p: int) -> bool {
    exists|col: int| 0 <= col < k && sprite_bit(b, col) && p == wrapped_index(cx, cy, col, row)
}

/// Whether some set bit among the first `k` rows of the sprite held at
/// `bytes[idx ..]` lands on the framebuffer cell `p`.
pub open spec fn sprite_covers(bytes: Seq<u8>, idx: int, cx: u8, cy: u8, k: int, p: int) -> bool {
    exists|row: int| 0 <= row < k && #[trigger] row_covers(bytes[idx + row], cx, cy, row, 8, p)
}

/// Whether some set bit among the first `k` rows lands on a cell of `g` that
/// is on: exactly when drawing those rows onto `g` reports a collision.
pub open spec fn sprite_hits_lit(
    g: Seq<u32>,
    bytes: Seq<u8>,
    idx: int,
    cx: u8,
    cy: u8,
    k: int,
) -> bool {
    exists|row: int, col: int|
        0 <= row < k && 0 <= col < 8 && sprite_bit(bytes[idx + row], col) && cell_lit(
            g[wrapped_index(cx, cy, col, row)],
        )
}

/// A sprite bit always lands inside the framebuffer.
proof fn lemma_wrapped_index_bounds(cx: u8, cy: u8, col: int, row: int)
    requires
        0 <= col,
        0 <= row,
    ensures
        0 <= wrapped_index(cx, cy, col, row) < GRAPHICS_SIZE,
{
    lemma_mod_bound(cx + col, 64);
    lemma_mod_bound(cy + row, 64);
}

/// Two distinct (column, row) pairs of one sprite land on distinct cells:
/// eight columns and at most sixteen rows cannot wrap onto each other.
proof fn lemma_wrapped_index_injective(cx: u8, cy: u8, col1: int, row1: int, col2: int, row2: int)
    requires
        0 <= col1 < 8,
        0 <= col2 < 8,
        0 <= row1 < 16,
        0 <= row2 < 16,
        !(col1 == col2 && row1 == row2),
    ensures
        wrapped_index(cx, cy, col1, row1) != wrapped_index(cx, cy, col2, row2),
{
    lemma_mod_bound(cx + col1, 64);
    lemma_mod_bound(cx + col2, 64);
    lemma_mod_bound(cy + row1, 64);
    lemma_mod_bound(cy + row2, 64);
    if wrapped_index(cx, cy, col1, row1) == wrapped_index(cx, cy, col2, row2) {
        // both coordinates lie below 64, so equal linear addresses force
        // equal column and row remainders
        assert((cx + col1) % 64 == (cx + col2) % 64);
        assert((cy + row1) % 64 == (cy + row2) % 64);
        lemma_fundamental_div_mod(cx + col1, 64);
        lemma_fundamental_div_mod(cx + col2, 64);
        lemma_fundamental_div_mod(cy + row1, 64);
        lemma_fundamental_div_mod(cy + row2, 64);
        // the columns differ by a multiple of 64 yet by less than 8, so they
        // are equal; the rows likewise
        assert(col1 - col2 == 64 * ((cx + col1) / 64 - (cx + col2) / 64));
        assert(row1 - row2 == 64 * ((cy + row1) / 64 - (cy + row2) / 64));
        assert(false);
    }
}

/// Pointwise reading of `draw_row`: a cell covered by a set bit among the
/// first `k` columns is toggled once, every other cell keeps its value, and
/// a collision is reported exactly when a covered cell of `g` was on.
proof fn lemma_draw_row_pointwise(g: Seq<u32>, b: u8, cx: u8, cy: u8, row: int, k: int)
    requires
        0 <= k <= 8,
        0 <= row < 16,
        g.len() == GRAPHICS_SIZE,
    ensures
        draw_row(g, b, cx, cy, row, k).0.len() == g.len(),
        forall|p: int|
            0 <= p < g.len() ==> draw_row(g, b, cx, cy, row, k).0[p] == (if row_covers(
                b,
                cx,
                cy,
                row,
                k,
                p,
            ) {
                toggled(g[p])
            } else {
                g[p]
            }),
        draw_row(g, b, cx, cy, row, k).1 == exists|col: int|
            0 <= col < k && sprite_bit(b, col) && cell_lit(g[wrapped_index(cx, cy, col, row)]),
    decreases k,
{
    if k > 0 {
        lemma_draw_row_pointwise(g, b, cx, cy, row, k - 1);
        let prev = draw_row(g, b, cx, cy, row, k - 1);
        let cur = draw_row(g, b, cx, cy, row, k);
        let col0 = k - 1;
        if sprite_bit(b, col0) {
            let pk = wrapped_index(cx, cy, col0, row);
            lemma_wrapped_index_bounds(cx, cy, col0, row);
            // the cell of column k-1 is untouched by the earlier columns
            assert(!row_covers(b, cx, cy, row, k - 1, pk)) by {
                if row_covers(b, cx, cy, row, k - 1, pk) {
                    let col = choose|col: int|
                        0 <= col < k - 1 && sprite_bit(b, col) && pk == wrapped_index(
                            cx,
                            cy,
                            col,
                            row,
                        );
                    lemma_wrapped_index_injective(cx, cy, col, row, col0, row);
                }
            }
            assert(prev.0[pk] == g[pk]);
            assert(row_covers(b, cx, cy, row, k, pk)) by {
                assert(0 <= col0 < k && sprite_bit(b, col0) && pk == wrapped_index(
                    cx,
                    cy,
                    col0,
                    row,
                ));
            }
            assert forall|p: int| 0 <= p < g.len() implies cur.0[p] == (if row_covers(
                b,
                cx,
                cy,
                row,
                k,
                p,
            ) {
                toggled(g[p])
            } else {
                g[p]
            }) by {
                if p != pk {
                    if row_covers(b, cx, cy, row, k, p) {
                        let col = choose|col: int|
                            0 <= col < k && sprite_bit(b, col) && p == wrapped_index(
                                cx,
                                cy,
                                col,
                                row,
                            );
                        assert(col != col0);
                        assert(row_covers(b, cx, cy, row, k - 1, p));
                    }
                    if row_covers(b, cx, cy, row, k - 1, p) {
                        let col = choose|col: int|
                            0 <= col < k - 1 && sprite_bit(b, col) && p == wrapped_index(
                                cx,
                                cy,
                                col,
                                row,
                            );
                        assert(row_covers(b, cx, cy, row, k, p));
                    }
                }
            }
            // the collision test for column k-1 read the original cell value
            assert(cur.1 == (prev.1 || cell_lit(g[pk])));
            if prev.1 {
                let col = choose|col: int|
                    0 <= col < k - 1 && sprite_bit(b, col) && cell_lit(
                        g[wrapped_index(cx, cy, col, row)],
                    );
                assert(0 <= col < k && sprite_bit(b, col) && cell_lit(
                    g[wrapped_index(cx, cy, col, row)],
                ));
            }
            if cell_lit(g[pk]) {
                assert(0 <= col0 < k && sprite_bit(b, col0) && cell_lit(
                    g[wrapped_index(cx, cy, col0, row)],
                ));
            }
            if exists|col: int|
                0 <= col < k && sprite_bit(b, col) && cell_lit(
                    g[wrapped_index(cx, cy, col, row)],
                ) {
                let col = choose|col: int|
                    0 <= col < k && sprite_bit(b, col) && cell_lit(
                        g[wrapped_index(cx, cy, col, row)],
                    );
                if col != col0 {
                    assert(0 <= col < k - 1 && sprite_bit(b, col) && cell_lit(
                        g[wrapped_index(cx, cy, col, row)],
                    ));
                }
            }
        } else {
            // column k-1 contributes nothing
            assert forall|p: int| 0 <= p < g.len() implies cur.0[p] == (if row_covers(
                b,
                cx,
                cy,
                row,
                k,
                p,
            ) {
                toggled(g[p])
            } else {
                g[p]
            }) by {
                if row_covers(b, cx, cy, row, k, p) {
                    let col = choose|col: int|
                        0 <= col < k && sprite_bit(b, col) && p == wrapped_index(cx, cy, col, row);
                    assert(col != col0);
                    assert(row_covers(b, cx, cy, row, k - 1, p));
                }
                if row_covers(b, cx, cy, row, k - 1, p) {
                    let col = choose|col: int|
                        0 <= col < k - 1 && sprite_bit(b, col) && p == wrapped_index(
                            cx,
                            cy,
                            col,
                            row,
                        );
                    assert(row_covers(b, cx, cy, row, k, p));
                }
            }
            assert(cur.1 == prev.1);
            if prev.1 {
                let col = choose|col: int|
                    0 <= col < k - 1 && sprite_bit(b, col) && cell_lit(
                        g[wrapped_index(cx, cy, col, row)],
                    );
                assert(0 <= col < k && sprite_bit(b, col) && cell_lit(
                    g[wrapped_index(cx, cy, col, row)],
                ));
            }
            if exists|col: int|
                0 <= col < k && sprite_bit(b, col) && cell_lit(
                    g[wrapped_index(cx, cy, col, row)],
                ) {
                let col = choose|col: int|
                    0 <= col < k && sprite_bit(b, col) && cell_lit(
                        g[wrapped_index(cx, cy, col, row)],
                    );
                assert(col != col0);
                assert(0 <= col < k - 1 && sprite_bit(b, col) && cell_lit(
                    g[wrapped_index(cx, cy, col, row)],
                ));
            }
        }
    }
}

/// Pointwise reading of the whole draw: a cell covered by any set sprite bit
/// is toggled exactly once, every other cell keeps its value, and a
/// collision is reported exactly when a covered cell of `g` was on.
pub proof fn lemma_draw_rows_pointwise(g: Seq<u32>, bytes: Seq<u8>, idx: int, cx: u8, cy: u8, k: int)
    requires
        0 <= k <= 15,
        g.len() == GRAPHICS_SIZE,
    ensures
        draw_rows(g, bytes, idx, cx, cy, k).0.len() == g.len(),
        forall|p: int|
            0 <= p < g.len() ==> draw_rows(g, bytes, idx, cx, cy, k).0[p] == (if sprite_covers(
                bytes,
                idx,
                cx,
                cy,
                k,
                p,
            ) {
                toggled(g[p])
            } else {
                g[p]
            }),
        draw_rows(g, bytes, idx, cx, cy, k).1 == sprite_hits_lit(g, bytes, idx, cx, cy, k),
    decreases k,
{
    if k > 0 {
        lemma_draw_rows_pointwise(g, bytes, idx, cx, cy, k - 1);
        let prev = draw_rows(g, bytes, idx, cx, cy, k - 1);
        let cur = draw_rows(g, bytes, idx, cx, cy, k);
        let row0 = k - 1;
        let b = bytes[idx + row0];
        lemma_draw_row_pointwise(prev.0, b, cx, cy, row0, 8);
        let rowres = draw_row(prev.0, b, cx, cy, row0, 8);
        // a cell of row k-1 is untouched by the earlier rows
        assert forall|col: int| 0 <= col < 8 implies !sprite_covers(
            bytes,
            idx,
            cx,
            cy,
            k - 1,
            wrapped_index(cx, cy, col, row0),
        ) by {
            let pc = wrapped_index(cx, cy, col, row0);
            if sprite_covers(bytes, idx, cx, cy, k - 1, pc) {
                let row = choose|row: int|
                    0 <= row < k - 1 && #[trigger] row_covers(bytes[idx + row], cx, cy, row, 8, pc);
                let col2 = choose|col2: int|
                    0 <= col2 < 8 && sprite_bit(bytes[idx + row], col2) && pc == wrapped_index(
                        cx,
                        cy,
                        col2,
                        row,
                    );
                lemma_wrapped_index_injective(cx, cy, col2, row, col, row0);
            }
        }
        // the cells: row k-1 toggles its covered cells of the original g,
        // everything else carries over from the first k-1 rows
        assert forall|p: int| 0 <= p < g.len() implies cur.0[p] == (if sprite_covers(
            bytes,
            idx,
            cx,
            cy,
            k,
            p,
        ) {
            toggled(g[p])
        } else {
            g[p]
        }) by {
            if row_covers(b, cx, cy, row0, 8, p) {
                let col = choose|col: int|
                    0 <= col < 8 && sprite_bit(b, col) && p == wrapped_index(cx, cy, col, row0);
                assert(!sprite_covers(bytes, idx, cx, cy, k - 1, p));
                assert(prev.0[p] == g[p]);
                assert(cur.0[p] == toggled(g[p]));
                assert(0 <= row0 < k && row_covers(bytes[idx + row0], cx, cy, row0, 8, p));
                assert(sprite_covers(bytes, idx, cx, cy, k, p));
            } else {
                assert(cur.0[p] == prev.0[p]);
                if sprite_covers(bytes, idx, cx, cy, k, p) {
                    let row = choose|row: int|
                        0 <= row < k && #[trigger] row_covers(bytes[idx + row], cx, cy, row, 8, p);
                    assert(row != row0);
                    assert(sprite_covers(bytes, idx, cx, cy, k - 1, p));
                }
                if sprite_covers(bytes, idx, cx, cy, k - 1, p) {
                    let row = choose|row: int|
                        0 <= row < k - 1 && #[trigger] row_covers(bytes[idx + row], cx, cy, row, 8, p);
                    assert(0 <= row < k && #[trigger] row_covers(bytes[idx + row], cx, cy, row, 8, p));
                    assert(sprite_covers(bytes, idx, cx, cy, k, p));
                }
            }
        }
        // the collision test of row k-1 read original cell values
        assert(rowres.1 == (exists|col: int|
            0 <= col < 8 && sprite_bit(b, col) && cell_lit(
                g[wrapped_index(cx, cy, col, row0)],
            ))) by {
            if rowres.1 {
                let col = choose|col: int|
                    0 <= col < 8 && sprite_bit(b, col) && cell_lit(
                        prev.0[wrapped_index(cx, cy, col, row0)],
                    );
                lemma_wrapped_index_bounds(cx, cy, col, row0);
                assert(prev.0[wrapped_index(cx, cy, col, row0)] == g[wrapped_index(
                    cx,
                    cy,
                    col,
                    row0,
                )]);
                assert(0 <= col < 8 && sprite_bit(b, col) && cell_lit(
                    g[wrapped_index(cx, cy, col, row0)],
                ));
            }
            if exists|col: int|
                0 <= col < 8 && sprite_bit(b, col) && cell_lit(
                    g[wrapped_index(cx, cy, col, row0)],
                ) {
                let col = choose|col: int|
                    0 <= col < 8 && sprite_bit(b, col) && cell_lit(
                        g[wrapped_index(cx, cy, col, row0)],
                    );
                lemma_wrapped_index_bounds(cx, cy, col, row0);
                assert(prev.0[wrapped_index(cx, cy, col, row0)] == g[wrapped_index(
                    cx,
                    cy,
                    col,
                    row0,
                )]);
                assert(0 <= col < 8 && sprite_bit(b, col) && cell_lit(
                    prev.0[wrapped_index(cx, cy, col, row0)],
                ));
            }
        }
        // assemble the collision flag over all k rows
        assert(cur.1 == (prev.1 || rowres.1));
        if prev.1 {
            let (row, col) = choose|row: int, col: int|
                0 <= row < k - 1 && 0 <= col < 8 && sprite_bit(bytes[idx + row], col) && cell_lit(
                    g[wrapped_index(cx, cy, col, row)],
                );
            assert(0 <= row < k && 0 <= col < 8 && sprite_bit(bytes[idx + row], col) && cell_lit(
                g[wrapped_index(cx, cy, col, row)],
            ));
        }
        if rowres.1 {
            let col = choose|col: int|
                0 <= col < 8 && sprite_bit(b, col) && cell_lit(
                    g[wrapped_index(cx, cy, col, row0)],
                );
            assert(0 <= row0 < k && 0 <= col < 8 && sprite_bit(bytes[idx + row0], col)
                && cell_lit(g[wrapped_index(cx, cy, col, row0)]));
        }
        if sprite_hits_lit(g, bytes, idx, cx, cy, k) {
            let (row, col) = choose|row: int, col: int|
                0 <= row < k && 0 <= col < 8 && sprite_bit(bytes[idx + row], col) && cell_lit(
                    g[wrapped_index(cx, cy, col, row)],
                );
            if row == row0 {
                assert(0 <= col < 8 && sprite_bit(b, col) && cell_lit(
                    g[wrapped_index(cx, cy, col, row0)],
                ));
            } else {
                assert(0 <= row < k - 1 && 0 <= col < 8 && sprite_bit(bytes[idx + row], col)
                    && cell_lit(g[wrapped_index(cx, cy, col, row)]));
            }
        }
    }
}

/// How one toggle moves the luminance byte between off (0) and on (1).
proof fn lemma_toggled_luminance(v: u32)
    by (bit_vector)
    ensures
        low_byte(v) == 0 ==> low_byte(toggled(v)) == 1,
        low_byte(v) == 1 ==> low_byte(toggled(v)) == 0,
{
}

/// Drawing the same sprite twice at the same coordinates toggles every
/// touched cell back off and reports a collision on the second draw: from a
/// framebuffer whose touched cells are off, the first draw turns them on
/// without a collision, the second draw collides, and every cell ends with
/// the on/off state it started with.
pub proof fn lemma_draw_twice_round_trip(
    g: Seq<u32>,
    bytes: Seq<u8>,
    idx: int,
    cx: u8,
    cy: u8,
    n: int,
)
    requires
        0 <= n <= 15,
        g.len() == GRAPHICS_SIZE,
        forall|p: int|
            0 <= p < GRAPHICS_SIZE && sprite_covers(bytes, idx, cx, cy, n, p) ==> low_byte(g[p])
                == 0,
        exists|row: int, col: int|
            0 <= row < n && 0 <= col < 8 && #[trigger] sprite_bit(bytes[idx + row], col),
    ensures
        draw_rows(g, bytes, idx, cx, cy, n).1 == false,
        draw_rows(draw_rows(g, bytes, idx, cx, cy, n).0, bytes, idx, cx, cy, n).1 == true,
        forall|p: int|
            0 <= p < GRAPHICS_SIZE ==> cell_lit(
                draw_rows(draw_rows(g, bytes, idx, cx, cy, n).0, bytes, idx, cx, cy, n).0[p],
            ) == cell_lit(g[p]),
{
    let g1 = draw_rows(g, bytes, idx, cx, cy, n).0;
    lemma_draw_rows_pointwise(g, bytes, idx, cx, cy, n);
    lemma_draw_rows_pointwise(g1, bytes, idx, cx, cy, n);
    // the first draw finds every covered cell off
    assert(!sprite_hits_lit(g, bytes, idx, cx, cy, n)) by {
        if sprite_hits_lit(g, bytes, idx, cx, cy, n) {
            let (row, col) = choose|row: int, col: int|
                0 <= row < n && 0 <= col < 8 && sprite_bit(bytes[idx + row], col) && cell_lit(
                    g[wrapped_index(cx, cy, col, row)],
                );
            let p = wrapped_index(cx, cy, col, row);
            lemma_wrapped_index_bounds(cx, cy, col, row);
            assert(0 <= col < 8 && sprite_bit(bytes[idx + row], col) && p == wrapped_index(
                cx,
                cy,
                col,
                row,
            ));
            assert(row_covers(bytes[idx + row], cx, cy, row, 8, p));
            assert(0 <= row < n && row_covers(bytes[idx + row], cx, cy, row, 8, p));
            assert(sprite_covers(bytes, idx, cx, cy, n, p));
        }
    }
    // covered cells toggle off -> on -> off; all others never change
    assert forall|p: int| 0 <= p < GRAPHICS_SIZE implies cell_lit(
        draw_rows(g1, bytes, idx, cx, cy, n).0[p],
    ) == cell_lit(g[p]) by {
        lemma_toggled_luminance(g[p]);
        lemma_toggled_luminance(g1[p]);
    }
    // the second draw finds some covered cell on: take any set sprite bit
    let (row0, col0) = choose|row: int, col: int|
        0 <= row < n && 0 <= col < 8 && #[trigger] sprite_bit(bytes[idx + row], col);
    let p0 = wrapped_index(cx, cy, col0, row0);
    lemma_wrapped_index_bounds(cx, cy, col0, row0);
    assert(0 <= col0 < 8 && sprite_bit(bytes[idx + row0], col0) && p0 == wrapped_index(
        cx,
        cy,
        col0,
        row0,
    ));
    assert(row_covers(bytes[idx + row0], cx, cy, row0, 8, p0));
    assert(0 <= row0 < n && row_covers(bytes[idx + row0], cx, cy, row0, 8, p0));
    assert(sprite_covers(bytes, idx, cx, cy, n, p0));
    lemma_toggled_luminance(g[p0]);
    assert(cell_lit(g1[p0]));
    assert(0 <= row0 < n && 0 <= col0 < 8 && sprite_bit(bytes[idx + row0], col0) && cell_lit(
        g1[wrapped_index(cx, cy, col0, row0)],
    ));
    assert(sprite_hits_lit(g1, bytes, idx, cx, cy, n));
}

/// Draws the `n`-row sprite held at memory address `idx` with on-screen
/// origin `(cx, cy)`, and reports whether any toggle turned an on cell off.
pub fn draw_sprite(mem: &mut Mem, idx: u16, cx: u8, cy: u8, n: u8) -> (collision: bool)
    requires
        n <= 15,
        n > 0 ==> idx + n <= MEMORY_SIZE,
    ensures
        final(mem)@ == (MemView {
            gfx: draw_rows(old(mem)@.gfx, old(mem)@.bytes, idx as int, cx, cy, n as int).0,
            ..old(mem)@
        }),
        collision == draw_rows(old(mem)@.gfx, old(mem)@.bytes, idx as int, cx, cy, n as int).1,
{
    let mut collision = false;
    let mut row: u8 = 0;
    while row < n
        invariant
            row <= n,
            n <= 15,
            n > 0 ==> idx + n <= MEMORY_SIZE,
            mem@.bytes == old(mem)@.bytes,
            mem@.stack == old(mem)@.stack,
            mem@.sp == old(mem)@.sp,
            (mem@.gfx, collision) == draw_rows(
                old(mem)@.gfx,
                old(mem)@.bytes,
                idx as int,
                cx,
                cy,
                row as int,
            ),
        decreases n - row,
    {
        let b = mem.fetch((idx + row as u16) as usize);
        let mut col: u8 = 0;
        while col < 8
            invariant
                col <= 8,
                row < n,
                n <= 15,
                idx + n <= MEMORY_SIZE,
                b == old(mem)@.bytes[idx + row],
                mem@.bytes == old(mem)@.bytes,
                mem@.stack == old(mem)@.stack,
                mem@.sp == old(mem)@.sp,
                ({
                    let (g1, c1) = draw_rows(
                        old(mem)@.gfx,
                        old(mem)@.bytes,
                        idx as int,
                        cx,
                        cy,
                        row as int,
                    );
                    let (g2, c2) = draw_row(g1, b, cx, cy, row as int, col as int);
                    mem@.gfx == g2 && collision == (c1 || c2)
                }),
            decreases 8 - col,
        {
            if (b >> (7 - col)) & 1 == 1 {
                let px = (cx as usize + col as usize) % 64;
                let py = (cy as usize + row as usize) % 64;
                let cur = mem.fetch_graphics(px, py);
                if cur == 1 {
                    collision = true;
                }
                mem.store_graphics(px, py, cur ^ 1);
            }
            col += 1;
        }
        row += 1;
    }
    collision
}

} // verus!
