//! XOR sprite drawing: the pointwise specification of a sprite draw on the
//! framebuffer, and the verified drawing routine.
//!
//! A sprite is up to fifteen rows of one byte each, read from memory. Each
//! set bit toggles one pixel; coordinates wrap independently in each axis.
//! Because a sprite is at most 15 rows tall and 8 columns wide, its bits land
//! on pairwise distinct pixels, so the effect of a draw is pointwise: a pixel
//! flips exactly when some set bit of the sprite maps to it.

use vstd::prelude::*;
use vstd::pervasive::VecAdditionalExecFns;
use vstd::arithmetic::div_mod::{lemma_fundamental_div_mod, lemma_mod_bound};
use crate::isa::{SCREEN_WIDTH, SCREEN_HEIGHT, RAM_SIZE};

verus! {

/// Framebuffer index hit by sprite bit (`row`, `col`) of a sprite drawn at
/// (`vx`, `vy`): both axes wrap at the screen edges.
pub open spec fn pos_of(vx: int, vy: int, row: int, col: int) -> int {
    (vx + col) % (SCREEN_WIDTH as int) + (SCREEN_WIDTH as int) * ((vy + row) % (
    SCREEN_HEIGHT as int))
}

/// Whether bit `col` (most significant first) of sprite row `row`, stored at
/// `index + row` in memory, is set.
pub open spec fn sprite_bit(ram: Seq<u8>, index: int, row: int, col: int) -> bool {
    (ram[index + row] >> ((7 - col) as u8)) & 1 == 1
}

/// Whether bit (`r`, `c`) comes strictly before bit (`row`, `col`) in
/// row-major drawing order.
pub open spec fn drawn_before(row: int, col: int, r: int, c: int) -> bool {
    r < row || (r == row && c < col)
}

/// Whether some sprite bit drawn strictly before (`row`, `col`) is set and
/// lands on framebuffer index `p`.
pub open spec fn hits_prefix(
    ram: Seq<u8>,
    index: int,
    vx: int,
    vy: int,
    row: int,
    col: int,
    p: int,
) -> bool {
    exists|r: int, c: int|
        #![trigger sprite_bit(ram, index, r, c)]
        0 <= r && 0 <= c < 8 && drawn_before(row, col, r, c) && sprite_bit(ram, index, r, c)
            && pos_of(vx, vy, r, c) == p
}

/// Whether some set bit of the whole `n`-row sprite lands on index `p`.
pub open spec fn draw_hits(ram: Seq<u8>, index: int, vx: int, vy: int, n: int, p: int) -> bool {
    hits_prefix(ram, index, vx, vy, n, 0, p)
}

/// The framebuffer after the sprite bits strictly before (`row`, `col`) have
/// been drawn onto `s0`: each hit pixel is toggled, every other pixel keeps
/// its value.
pub open spec fn screen_after_partial(
    s0: Seq<bool>,
    ram: Seq<u8>,
    index: int,
    vx: int,
    vy: int,
    row: int,
    col: int,
) -> Seq<bool> {
    Seq::new(
        s0.len(),
        |p: int|
            if hits_prefix(ram, index, vx, vy, row, col, p) {
                !s0[p]
            } else {
                s0[p]
            },
    )
}

/// The framebuffer after the whole `n`-row sprite has been drawn onto `s0`.
pub open spec fn screen_after_draw(
    s0: Seq<bool>,
    ram: Seq<u8>,
    index: int,
    vx: int,
    vy: int,
    n: int,
) -> Seq<bool> {
    screen_after_partial(s0, ram, index, vx, vy, n, 0)
}

/// Whether some sprite bit strictly before (`row`, `col`) is set and lands on
/// a pixel that is on in `s0` (a collision).
pub open spec fn collision_prefix(
    s0: Seq<bool>,
    ram: Seq<u8>,
    index: int,
    vx: int,
    vy: int,
    row: int,
    col: int,
) -> bool {
    exists|r: int, c: int|
        #![trigger sprite_bit(ram, index, r, c)]
        0 <= r && 0 <= c < 8 && drawn_before(row, col, r, c) && sprite_bit(ram, index, r, c)
            && s0[pos_of(vx, vy, r, c)]
}

/// Whether drawing the whole `n`-row sprite onto `s0` turns some pixel off
/// (the collision flag of the draw instruction).
pub open spec fn draw_collision(
    s0: Seq<bool>,
    ram: Seq<u8>,
    index: int,
    vx: int,
    vy: int,
    n: int,
) -> bool {
    collision_prefix(s0, ram, index, vx, vy, n, 0)
}

/// Whether drawing the whole `n`-row sprite onto `s0` turns some pixel on.
pub open spec fn draw_turns_on(
    s0: Seq<bool>,
    ram: Seq<u8>,
    index: int,
    vx: int,
    vy: int,
    n: int,
) -> bool {
    exists|r: int, c: int|
        #![trigger sprite_bit(ram, index, r, c)]
        0 <= r < n && 0 <= c < 8 && sprite_bit(ram, index, r, c) && !s0[pos_of(vx, vy, r, c)]
}

/// Wrapping an offset below the modulus is injective: two offsets from the
/// same base that wrap to the same value are the same offset.
proof fn lemma_wrap_inj(v: int, a: int, b: int, m: int)
    requires
        0 < m,
        0 <= a < m,
        0 <= b < m,
        0 <= v,
        (v + a) % m == (v + b) % m,
    ensures
        a == b,
{
    lemma_fundamental_div_mod(v + a, m);
    lemma_fundamental_div_mod(v + b, m);
    let qa = (v + a) / m;
    let qb = (v + b) / m;
    let r = (v + a) % m;
    assert(a == b) by (nonlinear_arith)
        requires
            v + a == m * qa + r,
            v + b == m * qb + r,
            0 <= a < m,
            0 <= b < m,
    ;
}

/// Distinct bits of one sprite land on distinct pixels: rows stay below the
/// screen height and columns below the screen width, so neither axis can
/// wrap two bits onto the same place.
pub proof fn lemma_pos_injective(vx: int, vy: int, r1: int, c1: int, r2: int, c2: int)
    requires
        0 <= vx,
        0 <= vy,
        0 <= r1 < SCREEN_HEIGHT,
        0 <= r2 < SCREEN_HEIGHT,
        0 <= c1 < 8,
        0 <= c2 < 8,
        pos_of(vx, vy, r1, c1) == pos_of(vx, vy, r2, c2),
    ensures
        r1 == r2,
        c1 == c2,
{
    let w = SCREEN_WIDTH as int;
    let h = SCREEN_HEIGHT as int;
    let x1 = (vx + c1) % w;
    let y1 = (vy + r1) % h;
    let x2 = (vx + c2) % w;
    let y2 = (vy + r2) % h;
    lemma_mod_bound(vx + c1, w);
    lemma_mod_bound(vx + c2, w);
    lemma_mod_bound(vy + r1, h);
    lemma_mod_bound(vy + r2, h);
    assert(x1 + 64 * y1 == x2 + 64 * y2);
    assert(x1 == x2 && y1 == y2) by (nonlinear_arith)
        requires
            x1 + 64 * y1 == x2 + 64 * y2,
            0 <= x1 < 64,
            0 <= x2 < 64,
            0 <= y1,
            0 <= y2,
    ;
    lemma_wrap_inj(vx, c1, c2, w);
    lemma_wrap_inj(vy, r1, r2, h);
}

/// Extending the drawn prefix by the single bit (`row`, `col`) adds exactly
/// that bit's hit, if it is set, to the hit predicate.
proof fn lemma_hits_step(
    ram: Seq<u8>,
    index: int,
    vx: int,
    vy: int,
    row: int,
    col: int,
    p: int,
)
    requires
        0 <= row,
        0 <= col < 8,
    ensures
        hits_prefix(ram, index, vx, vy, row, col + 1, p) <==> (hits_prefix(
            ram,
            index,
            vx,
            vy,
            row,
            col,
            p,
        ) || (sprite_bit(ram, index, row, col) && pos_of(vx, vy, row, col) == p)),
{
    if hits_prefix(ram, index, vx, vy, row, col + 1, p) {
        let (r, c) = choose|r: int, c: int|
            #![trigger sprite_bit(ram, index, r, c)]
            0 <= r && 0 <= c < 8 && drawn_before(row, col + 1, r, c) && sprite_bit(
                ram,
                index,
                r,
                c,
            ) && pos_of(vx, vy, r, c) == p;
        if r == row && c == col {
            assert(sprite_bit(ram, index, row, col) && pos_of(vx, vy, row, col) == p);
        } else {
            assert(drawn_before(row, col, r, c));
            assert(hits_prefix(ram, index, vx, vy, row, col, p));
        }
    }
    if hits_prefix(ram, index, vx, vy, row, col, p) {
        let (r, c) = choose|r: int, c: int|
            #![trigger sprite_bit(ram, index, r, c)]
            0 <= r && 0 <= c < 8 && drawn_before(row, col, r, c) && sprite_bit(ram, index, r, c)
                && pos_of(vx, vy, r, c) == p;
        assert(drawn_before(row, col + 1, r, c));
        assert(hits_prefix(ram, index, vx, vy, row, col + 1, p));
    }
    if sprite_bit(ram, index, row, col) && pos_of(vx, vy, row, col) == p {
        assert(drawn_before(row, col + 1, row, col));
        assert(hits_prefix(ram, index, vx, vy, row, col + 1, p));
    }
}

/// Extending the drawn prefix by the single bit (`row`, `col`) adds exactly
/// that bit's collision, if it is set and its pixel is on, to the collision
/// predicate.
proof fn lemma_collision_step(
    s0: Seq<bool>,
    ram: Seq<u8>,
    index: int,
    vx: int,
    vy: int,
    row: int,
    col: int,
)
    requires
        0 <= row,
        0 <= col < 8,
    ensures
        collision_prefix(s0, ram, index, vx, vy, row, col + 1) <==> (collision_prefix(
            s0,
            ram,
            index,
            vx,
            vy,
            row,
            col,
        ) || (sprite_bit(ram, index, row, col) && s0[pos_of(vx, vy, row, col)])),
{
    if collision_prefix(s0, ram, index, vx, vy, row, col + 1) {
        let (r, c) = choose|r: int, c: int|
            #![trigger sprite_bit(ram, index, r, c)]
            0 <= r && 0 <= c < 8 && drawn_before(row, col + 1, r, c) && sprite_bit(
                ram,
                index,
                r,
                c,
            ) && s0[pos_of(vx, vy, r, c)];
        if r == row && c == col {
            assert(sprite_bit(ram, index, row, col) && s0[pos_of(vx, vy, row, col)]);
        } else {
            assert(drawn_before(row, col, r, c));
            assert(collision_prefix(s0, ram, index, vx, vy, row, col));
        }
    }
    if collision_prefix(s0, ram, index, vx, vy, row, col) {
        let (r, c) = choose|r: int, c: int|
            #![trigger sprite_bit(ram, index, r, c)]
            0 <= r && 0 <= c < 8 && drawn_before(row, col, r, c) && sprite_bit(ram, index, r, c)
                && s0[pos_of(vx, vy, r, c)];
        assert(drawn_before(row, col + 1, r, c));
        assert(collision_prefix(s0, ram, index, vx, vy, row, col + 1));
    }
    if sprite_bit(ram, index, row, col) && s0[pos_of(vx, vy, row, col)] {
        assert(drawn_before(row, col + 1, row, col));
        assert(collision_prefix(s0, ram, index, vx, vy, row, col + 1));
    }
}

/// Finishing a row is the same prefix as starting the next one: every column
/// index of a drawn bit is below 8.
proof fn lemma_hits_row_end(
    ram: Seq<u8>,
    index: int,
    vx: int,
    vy: int,
    row: int,
    p: int,
)
    ensures
        hits_prefix(ram, index, vx, vy, row, 8, p) <==> hits_prefix(
            ram,
            index,
            vx,
            vy,
            row + 1,
            0,
            p,
        ),
{
    if hits_prefix(ram, index, vx, vy, row, 8, p) {
        let (r, c) = choose|r: int, c: int|
            #![trigger sprite_bit(ram, index, r, c)]
            0 <= r && 0 <= c < 8 && drawn_before(row, 8, r, c) && sprite_bit(ram, index, r, c)
                && pos_of(vx, vy, r, c) == p;
        assert(drawn_before(row + 1, 0, r, c));
        assert(hits_prefix(ram, index, vx, vy, row + 1, 0, p));
    }
    if hits_prefix(ram, index, vx, vy, row + 1, 0, p) {
        let (r, c) = choose|r: int, c: int|
            #![trigger sprite_bit(ram, index, r, c)]
            0 <= r && 0 <= c < 8 && drawn_before(row + 1, 0, r, c) && sprite_bit(ram, index, r, c)
                && pos_of(vx, vy, r, c) == p;
        assert(drawn_before(row, 8, r, c));
        assert(hits_prefix(ram, index, vx, vy, row, 8, p));
    }
}

/// The collision analogue of `lemma_hits_row_end`.
proof fn lemma_collision_row_end(
    s0: Seq<bool>,
    ram: Seq<u8>,
    index: int,
    vx: int,
    vy: int,
    row: int,
)
    ensures
        collision_prefix(s0, ram, index, vx, vy, row, 8) <==> collision_prefix(
            s0,
            ram,
            index,
            vx,
            vy,
            row + 1,
            0,
        ),
{
    if collision_prefix(s0, ram, index, vx, vy, row, 8) {
        let (r, c) = choose|r: int, c: int|
            #![trigger sprite_bit(ram, index, r, c)]
            0 <= r && 0 <= c < 8 && drawn_before(row, 8, r, c) && sprite_bit(ram, index, r, c)
                && s0[pos_of(vx, vy, r, c)];
        assert(drawn_before(row + 1, 0, r, c));
        assert(collision_prefix(s0, ram, index, vx, vy, row + 1, 0));
    }
    if collision_prefix(s0, ram, index, vx, vy, row + 1, 0) {
        let (r, c) = choose|r: int, c: int|
            #![trigger sprite_bit(ram, index, r, c)]
            0 <= r && 0 <= c < 8 && drawn_before(row + 1, 0, r, c) && sprite_bit(ram, index, r, c)
                && s0[pos_of(vx, vy, r, c)];
        assert(drawn_before(row, 8, r, c));
        assert(collision_prefix(s0, ram, index, vx, vy, row, 8));
    }
}

/// Draws the `n`-row sprite stored at `index` in memory at screen position
/// (`vx`, `vy`): every set bit toggles its pixel, with wrap-around in both
/// axes. Returns whether any toggle turned a lit pixel off.
pub fn draw_sprite(screen: &mut Vec<bool>, ram: &Vec<u8>, index: u16, vx: u8, vy: u8, n: u16) -> (
    collision: bool)
    requires
        old(screen)@.len() == SCREEN_WIDTH * SCREEN_HEIGHT,
        ram@.len() == RAM_SIZE,
        n <= 15,
        index as int + n as int <= RAM_SIZE,
    ensures
        final(screen)@ == screen_after_draw(
            old(screen)@,
            ram@,
            index as int,
            vx as int,
            vy as int,
            n as int,
        ),
        collision == draw_collision(
            old(screen)@,
            ram@,
            index as int,
            vx as int,
            vy as int,
            n as int,
        ),
{
    let ghost s0 = screen@;
    let ghost vxi = vx as int;
    let ghost vyi = vy as int;
    let ghost idx = index as int;
    let mut collision = false;
    let mut row: u16 = 0;
    while row < n
        invariant
            s0.len() == SCREEN_WIDTH * SCREEN_HEIGHT,
            ram@.len() == RAM_SIZE,
            n <= 15,
            idx == index as int,
            vxi == vx as int,
            vyi == vy as int,
            idx + n as int <= RAM_SIZE,
            row <= n,
            screen@ == screen_after_partial(s0, ram@, idx, vxi, vyi, row as int, 0),
            collision == collision_prefix(s0, ram@, idx, vxi, vyi, row as int, 0),
        decreases n - row,
    {
        let byte = ram[(index + row) as usize];
        let mut col: u16 = 0;
        while col < 8
            invariant
                s0.len() == SCREEN_WIDTH * SCREEN_HEIGHT,
                ram@.len() == RAM_SIZE,
                n <= 15,
                idx == index as int,
                vxi == vx as int,
                vyi == vy as int,
                idx + n as int <= RAM_SIZE,
                row < n,
                col <= 8,
                byte == ram@[idx + row as int],
                screen@ == screen_after_partial(s0, ram@, idx, vxi, vyi, row as int, col as int),
                collision == collision_prefix(s0, ram@, idx, vxi, vyi, row as int, col as int),
            decreases 8 - col,
        {
            let sh: u8 = (7 - col) as u8;
            if ((byte >> sh) & 1) == 1 {
                proof {
                    assert(sprite_bit(ram@, idx, row as int, col as int));
                }
                let xi = ((vx as usize) + (col as usize)) % SCREEN_WIDTH;
                let yi = ((vy as usize) + (row as usize)) % SCREEN_HEIGHT;
                let p = xi + SCREEN_WIDTH * yi;
                proof {
                    assert(p == pos_of(vxi, vyi, row as int, col as int));
                    assert(0 <= p < s0.len());
                    assert(!hits_prefix(ram@, idx, vxi, vyi, row as int, col as int, p as int))
                        by {
                        if hits_prefix(ram@, idx, vxi, vyi, row as int, col as int, p as int) {
                            let (r, c) = choose|r: int, c: int|
                                #![trigger sprite_bit(ram@, idx, r, c)]
                                0 <= r && 0 <= c < 8 && drawn_before(row as int, col as int, r, c)
                                    && sprite_bit(ram@, idx, r, c) && pos_of(vxi, vyi, r, c)
                                    == p;
                            lemma_pos_injective(vxi, vyi, r, c, row as int, col as int);
                            assert(false);
                        }
                    }
                }
                let was = screen[p];
                collision = collision || was;
                screen.set(p, !was);
                proof {
                    assert(was == s0[p as int]);
                    let sp_new = screen_after_partial(
                        s0,
                        ram@,
                        idx,
                        vxi,
                        vyi,
                        row as int,
                        col as int + 1,
                    );
                    assert forall|q: int| 0 <= q < s0.len() implies screen@[q] == sp_new[q] by {
                        lemma_hits_step(ram@, idx, vxi, vyi, row as int, col as int, q);
                        if q != p {
                            assert(pos_of(vxi, vyi, row as int, col as int) != q);
                        }
                    }
                    assert(screen@ =~= sp_new);
                    lemma_collision_step(s0, ram@, idx, vxi, vyi, row as int, col as int);
                }
            } else {
                proof {
                    assert(!sprite_bit(ram@, idx, row as int, col as int));
                    let sp_new = screen_after_partial(
                        s0,
                        ram@,
                        idx,
                        vxi,
                        vyi,
                        row as int,
                        col as int + 1,
                    );
                    assert forall|q: int| 0 <= q < s0.len() implies screen@[q] == sp_new[q] by {
                        lemma_hits_step(ram@, idx, vxi, vyi, row as int, col as int, q);
                    }
                    assert(screen@ =~= sp_new);
                    lemma_collision_step(s0, ram@, idx, vxi, vyi, row as int, col as int);
                }
            }
            col = col + 1;
        }
        proof {
            let sp_next = screen_after_partial(s0, ram@, idx, vxi, vyi, row as int + 1, 0);
            assert forall|q: int| 0 <= q < s0.len() implies screen@[q] == sp_next[q] by {
                lemma_hits_row_end(ram@, idx, vxi, vyi, row as int, q);
            }
            assert(screen@ =~= sp_next);
            lemma_collision_row_end(s0, ram@, idx, vxi, vyi, row as int);
        }
        row = row + 1;
    }
    collision
}

} // verus!
