//! Proof scaffolding for the DRW instruction.
//!
//! The sprite-drawing loop visits the sprite bits row by row and column by
//! column. The spec functions here describe the partial effect of the draw
//! after every prefix of that visiting order, and the lemmas relate one step
//! to the next, one row to the next, and the complete visit to the pointwise
//! description in [`crate::state`].
use vstd::prelude::*;

use crate::state::{
    draw_changes, draw_collision, draw_hits, pixel_pos, sprite_bit, sprite_row,
};

verus! {

/// Whether some sprite bit visited strictly before row `r`, column `c`
/// (in row-major visiting order) flips framebuffer position `p`.
pub open spec fn hits_upto(
    mem: Seq<u8>,
    index: u16,
    x0: u8,
    y0: u8,
    r: int,
    c: int,
    p: int,
) -> bool {
    exists|r2: int, c2: int|
        0 <= r2 && 0 <= c2 < 8 && (r2 < r || (r2 == r && c2 < c)) && p == pixel_pos(x0, y0, r2, c2)
            && sprite_bit(sprite_row(mem, index, r2), c2)
}

/// Whether some sprite bit visited strictly before row `r`, column `c`
/// lands on a pixel of `gfx` that is already lit.
pub open spec fn collision_upto(
    gfx: Seq<bool>,
    mem: Seq<u8>,
    index: u16,
    x0: u8,
    y0: u8,
    r: int,
    c: int,
) -> bool {
    exists|r2: int, c2: int|
        0 <= r2 && 0 <= c2 < 8 && (r2 < r || (r2 == r && c2 < c)) && sprite_bit(
            sprite_row(mem, index, r2),
            c2,
        ) && gfx[pixel_pos(x0, y0, r2, c2)]
}

/// Whether some sprite bit visited strictly before row `r`, column `c` is
/// set at all.
pub open spec fn changes_upto(mem: Seq<u8>, index: u16, r: int, c: int) -> bool {
    exists|r2: int, c2: int|
        0 <= r2 && 0 <= c2 < 8 && (r2 < r || (r2 == r && c2 < c)) && sprite_bit(
            sprite_row(mem, index, r2),
            c2,
        )
}

/// Two nonnegative numbers less than one modulus apart with the same
/// remainder are equal.
pub proof fn lemma_mod_eq_small(a: int, b: int, m: int)
    requires
        m > 0,
        a >= 0,
        b >= 0,
        a % m == b % m,
        -m < a - b < m,
    ensures
        a == b,
{
    vstd::arithmetic::div_mod::lemma_fundamental_div_mod(a, m);
    vstd::arithmetic::div_mod::lemma_fundamental_div_mod(b, m);
    let qa = a / m;
    let qb = b / m;
    let rem = a % m;
    assert(a - b == m * (qa - qb)) by (nonlinear_arith)
        requires
            a == m * qa + rem,
            b == m * qb + rem,
    {
    }
    assert(qa == qb) by (nonlinear_arith)
        requires
            m > 0,
            -m < m * (qa - qb) < m,
    {
    }
}

/// Distinct sprite bits land on distinct framebuffer positions, as long as
/// the sprite is at most 32 rows tall.
pub proof fn lemma_pixel_pos_injective(x0: u8, y0: u8, r1: int, c1: int, r2: int, c2: int)
    requires
        0 <= r1 < 32,
        0 <= c1 < 8,
        0 <= r2 < 32,
        0 <= c2 < 8,
        pixel_pos(x0, y0, r1, c1) == pixel_pos(x0, y0, r2, c2),
    ensures
        r1 == r2,
        c1 == c2,
{
    vstd::arithmetic::div_mod::lemma_mod_division_less_than_divisor(x0 + c1, 64);
    vstd::arithmetic::div_mod::lemma_mod_division_less_than_divisor(x0 + c2, 64);
    vstd::arithmetic::div_mod::lemma_mod_division_less_than_divisor(y0 + r1, 32);
    vstd::arithmetic::div_mod::lemma_mod_division_less_than_divisor(y0 + r2, 32);
    assert((y0 + r1) % 32 == (y0 + r2) % 32 && (x0 + c1) % 64 == (x0 + c2) % 64);
    lemma_mod_eq_small(y0 + r1, y0 + r2, 32);
    lemma_mod_eq_small(x0 + c1, x0 + c2, 64);
}

/// No sprite bit visited before row `r`, column `c` lands on the position
/// that the bit at row `r`, column `c` itself writes.
pub proof fn lemma_no_prior_hit(mem: Seq<u8>, index: u16, x0: u8, y0: u8, r: int, c: int)
    requires
        0 <= r < 32,
        0 <= c < 8,
    ensures
        !hits_upto(mem, index, x0, y0, r, c, pixel_pos(x0, y0, r, c)),
{
    let p = pixel_pos(x0, y0, r, c);
    if hits_upto(mem, index, x0, y0, r, c, p) {
        let (r2, c2) = choose|r2: int, c2: int|
            0 <= r2 && 0 <= c2 < 8 && (r2 < r || (r2 == r && c2 < c)) && p == pixel_pos(
                x0,
                y0,
                r2,
                c2,
            ) && sprite_bit(sprite_row(mem, index, r2), c2);
        lemma_pixel_pos_injective(x0, y0, r, c, r2, c2);
        assert(false);
    }
}

/// Moving the visit from column `c` to column `c + 1` adds exactly the bit
/// at row `r`, column `c` to the visited set.
pub proof fn lemma_upto_step(
    gfx: Seq<bool>,
    mem: Seq<u8>,
    index: u16,
    x0: u8,
    y0: u8,
    r: int,
    c: int,
)
    requires
        0 <= r,
        0 <= c < 8,
    ensures
        forall|p: int|
            hits_upto(mem, index, x0, y0, r, c + 1, p) == (hits_upto(mem, index, x0, y0, r, c, p)
                || (p == pixel_pos(x0, y0, r, c) && sprite_bit(sprite_row(mem, index, r), c))),
        collision_upto(gfx, mem, index, x0, y0, r, c + 1) == (collision_upto(
            gfx,
            mem,
            index,
            x0,
            y0,
            r,
            c,
        ) || (sprite_bit(sprite_row(mem, index, r), c) && gfx[pixel_pos(x0, y0, r, c)])),
        changes_upto(mem, index, r, c + 1) == (changes_upto(mem, index, r, c) || sprite_bit(
            sprite_row(mem, index, r),
            c,
        )),
{
    assert forall|p: int|
        hits_upto(mem, index, x0, y0, r, c + 1, p) == (hits_upto(mem, index, x0, y0, r, c, p) || (p
            == pixel_pos(x0, y0, r, c) && sprite_bit(sprite_row(mem, index, r), c))) by {
        if hits_upto(mem, index, x0, y0, r, c + 1, p) {
            let (r2, c2) = choose|r2: int, c2: int|
                0 <= r2 && 0 <= c2 < 8 && (r2 < r || (r2 == r && c2 < c + 1)) && p == pixel_pos(
                    x0,
                    y0,
                    r2,
                    c2,
                ) && sprite_bit(sprite_row(mem, index, r2), c2);
            if r2 < r || (r2 == r && c2 < c) {
                assert(hits_upto(mem, index, x0, y0, r, c, p));
            }
        }
        if hits_upto(mem, index, x0, y0, r, c, p) {
            let (r2, c2) = choose|r2: int, c2: int|
                0 <= r2 && 0 <= c2 < 8 && (r2 < r || (r2 == r && c2 < c)) && p == pixel_pos(
                    x0,
                    y0,
                    r2,
                    c2,
                ) && sprite_bit(sprite_row(mem, index, r2), c2);
            assert(hits_upto(mem, index, x0, y0, r, c + 1, p));
        }
        if p == pixel_pos(x0, y0, r, c) && sprite_bit(sprite_row(mem, index, r), c) {
            assert(hits_upto(mem, index, x0, y0, r, c + 1, p));
        }
    }
    if collision_upto(gfx, mem, index, x0, y0, r, c + 1) {
        let (r2, c2) = choose|r2: int, c2: int|
            0 <= r2 && 0 <= c2 < 8 && (r2 < r || (r2 == r && c2 < c + 1)) && sprite_bit(
                sprite_row(mem, index, r2),
                c2,
            ) && gfx[pixel_pos(x0, y0, r2, c2)];
        if r2 < r || (r2 == r && c2 < c) {
            assert(collision_upto(gfx, mem, index, x0, y0, r, c));
        }
    }
    if collision_upto(gfx, mem, index, x0, y0, r, c) {
        let (r2, c2) = choose|r2: int, c2: int|
            0 <= r2 && 0 <= c2 < 8 && (r2 < r || (r2 == r && c2 < c)) && sprite_bit(
                sprite_row(mem, index, r2),
                c2,
            ) && gfx[pixel_pos(x0, y0, r2, c2)];
        assert(collision_upto(gfx, mem, index, x0, y0, r, c + 1));
    }
    if sprite_bit(sprite_row(mem, index, r), c) && gfx[pixel_pos(x0, y0, r, c)] {
        assert(collision_upto(gfx, mem, index, x0, y0, r, c + 1));
    }
    if changes_upto(mem, index, r, c + 1) {
        let (r2, c2) = choose|r2: int, c2: int|
            0 <= r2 && 0 <= c2 < 8 && (r2 < r || (r2 == r && c2 < c + 1)) && sprite_bit(
                sprite_row(mem, index, r2),
                c2,
            );
        if r2 < r || (r2 == r && c2 < c) {
            assert(changes_upto(mem, index, r, c));
        }
    }
    if changes_upto(mem, index, r, c) {
        let (r2, c2) = choose|r2: int, c2: int|
            0 <= r2 && 0 <= c2 < 8 && (r2 < r || (r2 == r && c2 < c)) && sprite_bit(
                sprite_row(mem, index, r2),
                c2,
            );
        assert(changes_upto(mem, index, r, c + 1));
    }
    if sprite_bit(sprite_row(mem, index, r), c) {
        assert(changes_upto(mem, index, r, c + 1));
    }
}

/// Finishing a row is the same as standing at the start of the next row.
pub proof fn lemma_upto_row_end(
    gfx: Seq<bool>,
    mem: Seq<u8>,
    index: u16,
    x0: u8,
    y0: u8,
    r: int,
)
    ensures
        forall|p: int|
            hits_upto(mem, index, x0, y0, r, 8, p) == hits_upto(mem, index, x0, y0, r + 1, 0, p),
        collision_upto(gfx, mem, index, x0, y0, r, 8) == collision_upto(
            gfx,
            mem,
            index,
            x0,
            y0,
            r + 1,
            0,
        ),
        changes_upto(mem, index, r, 8) == changes_upto(mem, index, r + 1, 0),
{
    assert forall|p: int|
        hits_upto(mem, index, x0, y0, r, 8, p) == hits_upto(mem, index, x0, y0, r + 1, 0, p) by {
        if hits_upto(mem, index, x0, y0, r, 8, p) {
            let (r2, c2) = choose|r2: int, c2: int|
                0 <= r2 && 0 <= c2 < 8 && (r2 < r || (r2 == r && c2 < 8)) && p == pixel_pos(
                    x0,
                    y0,
                    r2,
                    c2,
                ) && sprite_bit(sprite_row(mem, index, r2), c2);
            assert(r2 < r + 1);
            assert(hits_upto(mem, index, x0, y0, r + 1, 0, p));
        }
        if hits_upto(mem, index, x0, y0, r + 1, 0, p) {
            let (r2, c2) = choose|r2: int, c2: int|
                0 <= r2 && 0 <= c2 < 8 && (r2 < r + 1 || (r2 == r + 1 && c2 < 0)) && p == pixel_pos(
                    x0,
                    y0,
                    r2,
                    c2,
                ) && sprite_bit(sprite_row(mem, index, r2), c2);
            assert(r2 < r || (r2 == r && c2 < 8));
            assert(hits_upto(mem, index, x0, y0, r, 8, p));
        }
    }
    if collision_upto(gfx, mem, index, x0, y0, r, 8) {
        let (r2, c2) = choose|r2: int, c2: int|
            0 <= r2 && 0 <= c2 < 8 && (r2 < r || (r2 == r && c2 < 8)) && sprite_bit(
                sprite_row(mem, index, r2),
                c2,
            ) && gfx[pixel_pos(x0, y0, r2, c2)];
        assert(r2 < r + 1);
        assert(collision_upto(gfx, mem, index, x0, y0, r + 1, 0));
    }
    if collision_upto(gfx, mem, index, x0, y0, r + 1, 0) {
        let (r2, c2) = choose|r2: int, c2: int|
            0 <= r2 && 0 <= c2 < 8 && (r2 < r + 1 || (r2 == r + 1 && c2 < 0)) && sprite_bit(
                sprite_row(mem, index, r2),
                c2,
            ) && gfx[pixel_pos(x0, y0, r2, c2)];
        assert(r2 < r || (r2 == r && c2 < 8));
        assert(collision_upto(gfx, mem, index, x0, y0, r, 8));
    }
    if changes_upto(mem, index, r, 8) {
        let (r2, c2) = choose|r2: int, c2: int|
            0 <= r2 && 0 <= c2 < 8 && (r2 < r || (r2 == r && c2 < 8)) && sprite_bit(
                sprite_row(mem, index, r2),
                c2,
            );
        assert(r2 < r + 1);
        assert(changes_upto(mem, index, r + 1, 0));
    }
    if changes_upto(mem, index, r + 1, 0) {
        let (r2, c2) = choose|r2: int, c2: int|
            0 <= r2 && 0 <= c2 < 8 && (r2 < r + 1 || (r2 == r + 1 && c2 < 0)) && sprite_bit(
                sprite_row(mem, index, r2),
                c2,
            );
        assert(r2 < r || (r2 == r && c2 < 8));
        assert(changes_upto(mem, index, r, 8));
    }
}

/// Having visited all `n` rows is exactly the complete draw of the
/// pointwise specification.
pub proof fn lemma_upto_full(gfx: Seq<bool>, mem: Seq<u8>, index: u16, x0: u8, y0: u8, n: u8)
    ensures
        forall|p: int|
            hits_upto(mem, index, x0, y0, n as int, 0, p) == draw_hits(mem, index, x0, y0, n, p),
        collision_upto(gfx, mem, index, x0, y0, n as int, 0) == draw_collision(
            gfx,
            mem,
            index,
            x0,
            y0,
            n,
        ),
        changes_upto(mem, index, n as int, 0) == draw_changes(mem, index, n),
{
    assert forall|p: int|
        hits_upto(mem, index, x0, y0, n as int, 0, p) == draw_hits(mem, index, x0, y0, n, p) by {
        if hits_upto(mem, index, x0, y0, n as int, 0, p) {
            let (r2, c2) = choose|r2: int, c2: int|
                0 <= r2 && 0 <= c2 < 8 && (r2 < n || (r2 == n && c2 < 0)) && p == pixel_pos(
                    x0,
                    y0,
                    r2,
                    c2,
                ) && sprite_bit(sprite_row(mem, index, r2), c2);
            assert(0 <= r2 < n);
            assert(draw_hits(mem, index, x0, y0, n, p));
        }
        if draw_hits(mem, index, x0, y0, n, p) {
            let (r2, c2) = choose|r2: int, c2: int|
                0 <= r2 < n && 0 <= c2 < 8 && p == pixel_pos(x0, y0, r2, c2) && sprite_bit(
                    sprite_row(mem, index, r2),
                    c2,
                );
            assert(hits_upto(mem, index, x0, y0, n as int, 0, p));
        }
    }
    if collision_upto(gfx, mem, index, x0, y0, n as int, 0) {
        let (r2, c2) = choose|r2: int, c2: int|
            0 <= r2 && 0 <= c2 < 8 && (r2 < n || (r2 == n && c2 < 0)) && sprite_bit(
                sprite_row(mem, index, r2),
                c2,
            ) && gfx[pixel_pos(x0, y0, r2, c2)];
        assert(0 <= r2 < n);
        assert(draw_collision(gfx, mem, index, x0, y0, n));
    }
    if draw_collision(gfx, mem, index, x0, y0, n) {
        let (r2, c2) = choose|r2: int, c2: int|
            0 <= r2 < n && 0 <= c2 < 8 && sprite_bit(sprite_row(mem, index, r2), c2) && gfx[
                pixel_pos(x0, y0, r2, c2)];
        assert(collision_upto(gfx, mem, index, x0, y0, n as int, 0));
    }
    if changes_upto(mem, index, n as int, 0) {
        let (r2, c2) = choose|r2: int, c2: int|
            0 <= r2 && 0 <= c2 < 8 && (r2 < n || (r2 == n && c2 < 0)) && sprite_bit(
                sprite_row(mem, index, r2),
                c2,
            );
        assert(0 <= r2 < n);
        assert(draw_changes(mem, index, n));
    }
    if draw_changes(mem, index, n) {
        let (r2, c2) = choose|r2: int, c2: int|
            0 <= r2 < n && 0 <= c2 < 8 && sprite_bit(sprite_row(mem, index, r2), c2);
        assert(changes_upto(mem, index, n as int, 0));
    }
}

/// At the start of the visit nothing has been drawn yet.
pub proof fn lemma_upto_empty(gfx: Seq<bool>, mem: Seq<u8>, index: u16, x0: u8, y0: u8)
    ensures
        forall|p: int| !hits_upto(mem, index, x0, y0, 0, 0, p),
        !collision_upto(gfx, mem, index, x0, y0, 0, 0),
        !changes_upto(mem, index, 0, 0),
{
}

} // verus!
