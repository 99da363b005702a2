//! Where the rows and columns of a wrapped-around sprite land on the bitmap.

use vstd::prelude::*;

use vstd::arithmetic::div_mod::{
    lemma_fundamental_div_mod, lemma_fundamental_div_mod_converse, lemma_mod_multiples_vanish,
    lemma_small_mod,
};

use crate::display::{pixel_index, HEIGHT, PIXELS, WIDTH};

verus! {

/// Row of the sprite that lands on flat bitmap position `p` (before the
/// sprite's height is taken into account).
pub open spec fn sprite_row(vy: int, p: int) -> int {
    (p / (WIDTH as int) - vy) % (HEIGHT as int)
}

/// Column of the sprite that lands on flat bitmap position `p`.
pub open spec fn sprite_col(vx: int, p: int) -> int {
    (p % (WIDTH as int) - vx) % (WIDTH as int)
}

/// Whether a draw that has handled every row before `row`, and the columns
/// before `col` of `row`, has reached position `p`.
pub open spec fn reached(vx: int, vy: int, row: int, col: int, p: int) -> bool {
    sprite_row(vy, p) < row || (sprite_row(vy, p) == row && sprite_col(vx, p) < col)
}

/// For `0 <= c < m`: the offset from `v` of `v + c` wrapped modulo `m` is
/// `c` again, and the residue whose offset from `v` is `c` is that one.
proof fn lemma_wrap_offset(v: int, c: int, b: int, m: int)
    requires
        0 < m,
        0 <= c < m,
        0 <= b < m,
    ensures
        ((v + c) % m - v) % m == c,
        (b - v) % m == c <==> b == (v + c) % m,
{
    lemma_fundamental_div_mod(v + c, m);
    let k = (v + c) / m;
    assert(m * (-k) == -(m * k)) by (nonlinear_arith);
    assert((v + c) % m - v == m * (-k) + c);
    lemma_mod_multiples_vanish(-k, c, m);
    lemma_small_mod(c as nat, m as nat);
    if (b - v) % m == c {
        lemma_fundamental_div_mod(b - v, m);
        let j = (b - v) / m;
        assert(b == m * j + (v + c));
        lemma_mod_multiples_vanish(j, v + c, m);
        lemma_small_mod(b as nat, m as nat);
    }
}

/// Each pixel is the target of exactly one (row, column) of the sprite, and
/// the pixel that a (row, column) lands on is found by wrapping.
pub proof fn lemma_sprite_target(vx: int, vy: int, row: int, col: int, p: int)
    requires
        0 <= vx < 256,
        0 <= vy < 256,
        0 <= row < 16,
        0 <= col < 8,
        0 <= p < PIXELS,
    ensures
        0 <= pixel_index(vx + col, vy + row) < PIXELS,
        sprite_row(vy, pixel_index(vx + col, vy + row)) == row,
        sprite_col(vx, pixel_index(vx + col, vy + row)) == col,
        (sprite_row(vy, p) == row && sprite_col(vx, p) == col) <==> p == pixel_index(vx + col, vy + row),
{
    let a = (vx + col) % 64;
    let b = (vy + row) % 32;
    let q = pixel_index(vx + col, vy + row);
    assert(q == b * 64 + a);
    lemma_fundamental_div_mod_converse(q, 64, b, a);
    lemma_fundamental_div_mod(p, 64);
    let px = p % 64;
    let py = p / 64;
    assert(0 <= py < 32);
    lemma_wrap_offset(vx, col, px, 64);
    lemma_wrap_offset(vy, row, py, 32);
    lemma_wrap_offset(vx, col, a, 64);
    lemma_wrap_offset(vy, row, b, 32);
}

} // verus!
