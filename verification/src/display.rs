//! What drawing a sprite does to the screen, stated pixel by pixel.

use vstd::prelude::*;
use crate::model::{SCREEN_HEIGHT, SCREEN_SIZE, SCREEN_WIDTH};

verus! {

/// Whether column `col` of a sprite row is lit; column 0 is the most
/// significant bit of the row's byte.
pub open spec fn sprite_bit(row_byte: u8, col: int) -> bool {
    (row_byte & (0x80u8 >> (col as u8))) != 0
}

/// The column of the sprite that falls on screen column `cx` when the
/// sprite's left edge is at `x0`; columns wrap round the screen.
pub open spec fn sprite_col(x0: int, cx: int) -> int {
    (cx - x0) % (SCREEN_WIDTH as int)
}

/// The row of the sprite that falls on screen row `cy` when the sprite's
/// top edge is at `y0`; rows wrap round the screen.
pub open spec fn sprite_row(y0: int, cy: int) -> int {
    (cy - y0) % (SCREEN_HEIGHT as int)
}

/// Whether the `n`-row sprite at `ram[i..]`, placed at (`x0`, `y0`), has a
/// lit pixel on screen cell `p` (cells are numbered row after row).
pub open spec fn sprite_covers(ram: Seq<u8>, i: int, n: int, x0: int, y0: int, p: int) -> bool {
    let col = sprite_col(x0, p % (SCREEN_WIDTH as int));
    let row = sprite_row(y0, p / (SCREEN_WIDTH as int));
    col < 8 && row < n && sprite_bit(ram[i + row], col)
}

/// The screen after the sprite has been drawn: each cell that the sprite
/// lights is toggled, every other cell is as before.
pub open spec fn drawn_screen(
    screen: Seq<bool>,
    ram: Seq<u8>,
    i: int,
    n: int,
    x0: int,
    y0: int,
) -> Seq<bool> {
    Seq::new(SCREEN_SIZE as nat, |p: int| screen[p] ^ sprite_covers(ram, i, n, x0, y0, p))
}

/// Whether drawing the sprite turns off a cell that was lit.
pub open spec fn collides(
    screen: Seq<bool>,
    ram: Seq<u8>,
    i: int,
    n: int,
    x0: int,
    y0: int,
) -> bool {
    exists|p: int|
        0 <= p < SCREEN_SIZE && screen[p] && #[trigger] sprite_covers(ram, i, n, x0, y0, p)
}

/// The screen cell that pixel (`row`, `col`) of a sprite at (`x0`, `y0`)
/// falls on.
pub open spec fn target_cell(x0: int, y0: int, row: int, col: int) -> int {
    let column = (x0 + col) % (SCREEN_WIDTH as int);
    let line = (y0 + row) % (SCREEN_HEIGHT as int);
    column + (SCREEN_WIDTH as int) * line
}

/// On a ring of 64 columns, `c` lies `d` columns to the right of `x0`
/// exactly when it is the column reached by going `d` to the right.
proof fn lemma_wrap_columns(x0: int, c: int, d: int)
    requires
        0 <= x0 < 64,
        0 <= c < 64,
        0 <= d < 64,
    ensures
        0 <= (x0 + d) % 64 < 64,
        ((c - x0) % 64 == d) <==> c == (x0 + d) % 64,
{
    if c >= x0 {
        assert((c - x0) % 64 == c - x0);
    } else {
        assert((c - x0) % 64 == c - x0 + 64);
    }
    if x0 + d < 64 {
        assert((x0 + d) % 64 == x0 + d);
    } else {
        assert((x0 + d) % 64 == x0 + d - 64);
    }
}

/// The same on a ring of 32 rows.
proof fn lemma_wrap_rows(y0: int, r: int, d: int)
    requires
        0 <= y0 < 32,
        0 <= r < 32,
        0 <= d < 32,
    ensures
        0 <= (y0 + d) % 32 < 32,
        ((r - y0) % 32 == d) <==> r == (y0 + d) % 32,
{
    if r >= y0 {
        assert((r - y0) % 32 == r - y0);
    } else {
        assert((r - y0) % 32 == r - y0 + 32);
    }
    if y0 + d < 32 {
        assert((y0 + d) % 32 == y0 + d);
    } else {
        assert((y0 + d) % 32 == y0 + d - 32);
    }
}

/// A sprite pixel falls on exactly one cell: `target_cell` inverts
/// `sprite_col` and `sprite_row`.
pub proof fn lemma_target_cell(x0: int, y0: int, row: int, col: int, p: int)
    requires
        0 <= x0 < SCREEN_WIDTH,
        0 <= y0 < SCREEN_HEIGHT,
        0 <= row < 16,
        0 <= col < 8,
        0 <= p < SCREEN_SIZE,
    ensures
        0 <= target_cell(x0, y0, row, col) < SCREEN_SIZE,
        (sprite_col(x0, p % (SCREEN_WIDTH as int)) == col && sprite_row(
            y0,
            p / (SCREEN_WIDTH as int),
        ) == row) <==> p == target_cell(x0, y0, row, col),
{
    let cx = p % 64;
    let cy = p / 64;
    let tx = (x0 + col) % 64;
    let ty = (y0 + row) % 32;
    assert(p == cx + 64 * cy);
    assert(0 <= cx < 64 && 0 <= cy < 32);
    lemma_wrap_columns(x0, cx, col);
    lemma_wrap_rows(y0, cy, row);
    let t = tx + 64 * ty;
    assert(t == target_cell(x0, y0, row, col));
    assert(t % 64 == tx && t / 64 == ty);
}

/// Whether the sprite lights cell `p` with one of its first `k` pixels,
/// the pixels counted row after row, eight to a row.
pub open spec fn covers_upto(
    ram: Seq<u8>,
    i: int,
    n: int,
    x0: int,
    y0: int,
    p: int,
    k: int,
) -> bool {
    sprite_covers(ram, i, n, x0, y0, p) && sprite_row(y0, p / (SCREEN_WIDTH as int)) * 8
        + sprite_col(x0, p % (SCREEN_WIDTH as int)) < k
}

/// Whether one of the first `k` pixels of the sprite turns off a cell
/// that was lit.
pub open spec fn collides_upto(
    screen: Seq<bool>,
    ram: Seq<u8>,
    i: int,
    n: int,
    x0: int,
    y0: int,
    k: int,
) -> bool {
    exists|p: int|
        0 <= p < SCREEN_SIZE && screen[p] && #[trigger] covers_upto(ram, i, n, x0, y0, p, k)
}

/// Before the first pixel nothing is covered and nothing collides.
pub proof fn lemma_draw_start(screen: Seq<bool>, ram: Seq<u8>, i: int, n: int, x0: int, y0: int)
    ensures
        forall|p: int| !#[trigger] covers_upto(ram, i, n, x0, y0, p, 0),
        !collides_upto(screen, ram, i, n, x0, y0, 0),
{
}

/// What pixel (`row`, `col`) of the sprite adds to what the pixels before
/// it cover: its own cell if it is lit, and nothing else.
pub proof fn lemma_draw_pixel(
    screen: Seq<bool>,
    ram: Seq<u8>,
    i: int,
    n: int,
    x0: int,
    y0: int,
    row: int,
    col: int,
)
    requires
        0 <= x0 < SCREEN_WIDTH,
        0 <= y0 < SCREEN_HEIGHT,
        0 <= row < n <= 15,
        0 <= col < 8,
    ensures
        ({
            let k = row * 8 + col;
            let cell = target_cell(x0, y0, row, col);
            let lit = sprite_bit(ram[i + row], col);
            &&& 0 <= cell < SCREEN_SIZE
            &&& !covers_upto(ram, i, n, x0, y0, cell, k)
            &&& covers_upto(ram, i, n, x0, y0, cell, k + 1) == lit
            &&& forall|p: int|
                0 <= p < SCREEN_SIZE && p != cell ==> #[trigger] covers_upto(
                    ram,
                    i,
                    n,
                    x0,
                    y0,
                    p,
                    k + 1,
                ) == covers_upto(ram, i, n, x0, y0, p, k)
            &&& collides_upto(screen, ram, i, n, x0, y0, k + 1) == (collides_upto(
                screen,
                ram,
                i,
                n,
                x0,
                y0,
                k,
            ) || (screen[cell] && lit))
        }),
{
    let k = row * 8 + col;
    let cell = target_cell(x0, y0, row, col);
    let lit = sprite_bit(ram[i + row], col);
    lemma_target_cell(x0, y0, row, col, cell);
    assert forall|p: int| 0 <= p < SCREEN_SIZE && p != cell implies #[trigger] covers_upto(
        ram,
        i,
        n,
        x0,
        y0,
        p,
        k + 1,
    ) == covers_upto(ram, i, n, x0, y0, p, k) by {
        lemma_target_cell(x0, y0, row, col, p);
    }
    if collides_upto(screen, ram, i, n, x0, y0, k + 1) {
        let p = choose|p: int|
            0 <= p < SCREEN_SIZE && screen[p] && #[trigger] covers_upto(
                ram,
                i,
                n,
                x0,
                y0,
                p,
                k + 1,
            );
        if p != cell {
            assert(covers_upto(ram, i, n, x0, y0, p, k));
        }
    }
    if collides_upto(screen, ram, i, n, x0, y0, k) {
        let p = choose|p: int|
            0 <= p < SCREEN_SIZE && screen[p] && #[trigger] covers_upto(ram, i, n, x0, y0, p, k);
        assert(p != cell);
        assert(covers_upto(ram, i, n, x0, y0, p, k + 1));
    }
    if screen[cell] && lit {
        assert(covers_upto(ram, i, n, x0, y0, cell, k + 1));
    }
}

/// After the last pixel the whole sprite has been taken into account.
pub proof fn lemma_draw_end(screen: Seq<bool>, ram: Seq<u8>, i: int, n: int, x0: int, y0: int)
    requires
        0 <= n,
    ensures
        forall|p: int| #[trigger]
            covers_upto(ram, i, n, x0, y0, p, 8 * n) == sprite_covers(ram, i, n, x0, y0, p),
        collides_upto(screen, ram, i, n, x0, y0, 8 * n) == collides(screen, ram, i, n, x0, y0),
{
    assert forall|p: int| #[trigger]
        covers_upto(ram, i, n, x0, y0, p, 8 * n) == sprite_covers(ram, i, n, x0, y0, p) by {}
    if collides_upto(screen, ram, i, n, x0, y0, 8 * n) {
        let p = choose|p: int|
            0 <= p < SCREEN_SIZE && screen[p] && #[trigger] covers_upto(
                ram,
                i,
                n,
                x0,
                y0,
                p,
                8 * n,
            );
        assert(sprite_covers(ram, i, n, x0, y0, p));
    }
    if collides(screen, ram, i, n, x0, y0) {
        let p = choose|p: int|
            0 <= p < SCREEN_SIZE && screen[p] && #[trigger] sprite_covers(ram, i, n, x0, y0, p);
        assert(covers_upto(ram, i, n, x0, y0, p, 8 * n));
    }
}

} // verus!
