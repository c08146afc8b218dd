use vstd::prelude::*;

use vstd::arithmetic::div_mod::lemma_fundamental_div_mod;
use vstd::arithmetic::div_mod::lemma_fundamental_div_mod_converse_div;
use vstd::arithmetic::div_mod::lemma_fundamental_div_mod_converse_mod;

verus! {

/// The weight of sprite column `c`: sprite rows are drawn most-significant
/// bit first, so column 0 carries bit 7 of the row byte.
pub open spec fn col_weight(c: int) -> int {
    if c == 0 {
        128
    } else if c == 1 {
        64
    } else if c == 2 {
        32
    } else if c == 3 {
        16
    } else if c == 4 {
        8
    } else if c == 5 {
        4
    } else if c == 6 {
        2
    } else {
        1
    }
}

/// Whether bit `c` (most-significant first) of sprite row byte `b` is set.
pub open spec fn sprite_bit(b: u8, c: int) -> bool {
    (b as int / col_weight(c)) % 2 == 1
}

/// Row-major index of the destination pixel of sprite cell (row `r`,
/// column `c`) drawn at origin (`x`, `y`); both axes wrap around.
pub open spec fn pix_index(x: u8, y: u8, r: int, c: int) -> int {
    ((y + r) % 32) * 64 + ((x + c) % 64)
}

/// Whether some set sprite cell lands on pixel `idx`.
pub open spec fn covering_pair(sprite: Seq<u8>, x: u8, y: u8, r2: int, c2: int, idx: int) -> bool {
    0 <= r2 < sprite.len() && 0 <= c2 < 8 && sprite_bit(sprite[r2], c2) && idx == pix_index(
        x,
        y,
        r2,
        c2,
    )
}

pub open spec fn covers(sprite: Seq<u8>, x: u8, y: u8, idx: int) -> bool {
    exists|r2: int, c2: int| covering_pair(sprite, x, y, r2, c2, idx)
}

/// The grid after XOR-blitting `sprite` at (`x`, `y`): a pixel flips
/// exactly when a set sprite cell lands on it.
pub open spec fn draw_post(disp: Seq<bool>, x: u8, y: u8, sprite: Seq<u8>) -> Seq<bool> {
    Seq::new(disp.len(), |idx: int| disp[idx] != covers(sprite, x, y, idx))
}

/// Whether the blit touches a pixel that was already set before the XOR.
pub open spec fn draw_collision(disp: Seq<bool>, x: u8, y: u8, sprite: Seq<u8>) -> bool {
    exists|idx: int| 0 <= idx < disp.len() && disp[idx] && covers(sprite, x, y, idx)
}

/// Sprite cells are processed row by row, column by column; (`r2`, `c2`)
/// comes strictly before (`r`, `c`) in that order.
pub open spec fn pair_before(r2: int, c2: int, r: int, c: int) -> bool {
    r2 < r || (r2 == r && c2 < c)
}

/// `covers`, restricted to the cells processed before (`r`, `c`).
pub open spec fn covers_upto(sprite: Seq<u8>, x: u8, y: u8, r: int, c: int, idx: int) -> bool {
    exists|r2: int, c2: int| covering_pair(sprite, x, y, r2, c2, idx) && pair_before(r2, c2, r, c)
}

/// Whether a set cell processed before (`r`, `c`) landed on a set pixel.
pub open spec fn collided_upto(
    disp: Seq<bool>,
    sprite: Seq<u8>,
    x: u8,
    y: u8,
    r: int,
    c: int,
) -> bool {
    exists|r2: int, c2: int|
        covering_pair(sprite, x, y, r2, c2, pix_index(x, y, r2, c2)) && pair_before(r2, c2, r, c)
            && disp[pix_index(x, y, r2, c2)]
}

pub open spec fn blank_display() -> Seq<bool> {
    Seq::new(2048, |idx: int| false)
}

proof fn lemma_mod_window(a: int, b: int, m: int)
    requires
        0 < m,
        0 <= a,
        a <= b,
        b < a + m,
        a % m == b % m,
    ensures
        a == b,
{
    let qa = a / m;
    let qb = b / m;
    lemma_fundamental_div_mod(a, m);
    lemma_fundamental_div_mod(b, m);
    assert(b - a == (qb - qa) * m) by (nonlinear_arith)
        requires
            a == m * qa + a % m,
            b == m * qb + b % m,
            a % m == b % m,
    ;
    assert(qb - qa == 0) by (nonlinear_arith)
        requires
            b - a == (qb - qa) * m,
            0 <= b - a,
            b - a < m,
            0 < m,
    ;
}

/// Pixel indices decompose uniquely into a row and a column.
proof fn lemma_row_col(py: int, px: int)
    requires
        0 <= py,
        0 <= px < 64,
    ensures
        (py * 64 + px) / 64 == py,
        (py * 64 + px) % 64 == px,
{
    lemma_fundamental_div_mod_converse_div(py * 64 + px, 64, py, px);
    lemma_fundamental_div_mod_converse_mod(py * 64 + px, 64, py, px);
}

/// Every destination index lies in the 64 x 32 grid.
proof fn lemma_pix_index_range(x: u8, y: u8, r: int, c: int)
    requires
        0 <= r,
        0 <= c,
    ensures
        0 <= pix_index(x, y, r, c) < 2048,
{
    assert(0 <= (y + r) % 32 < 32);
    assert(0 <= (x + c) % 64 < 64);
}

/// Distinct sprite cells of at most 32 rows land on distinct pixels:
/// the 8 columns are fewer than the 64 grid columns and the rows fewer
/// than the 32 grid rows, so wraparound cannot make them coincide.
proof fn lemma_pix_inj(x: u8, y: u8, r1: int, c1: int, r2: int, c2: int)
    requires
        0 <= r1 < 32,
        0 <= c1 < 8,
        0 <= r2 < 32,
        0 <= c2 < 8,
        !(r1 == r2 && c1 == c2),
    ensures
        pix_index(x, y, r1, c1) != pix_index(x, y, r2, c2),
{
    let py1 = (y + r1) % 32;
    let px1 = (x + c1) % 64;
    let py2 = (y + r2) % 32;
    let px2 = (x + c2) % 64;
    assert(0 <= py1 < 32 && 0 <= py2 < 32 && 0 <= px1 < 64 && 0 <= px2 < 64);
    if pix_index(x, y, r1, c1) == pix_index(x, y, r2, c2) {
        lemma_row_col(py1, px1);
        lemma_row_col(py2, px2);
        assert(py1 == py2 && px1 == px2);
        if r1 < r2 {
            lemma_mod_window(y + r1, y + r2, 32);
        } else if r2 < r1 {
            lemma_mod_window(y + r2, y + r1, 32);
        } else if c1 < c2 {
            lemma_mod_window(x + c1, x + c2, 64);
        } else {
            lemma_mod_window(x + c2, x + c1, 64);
        }
    }
}

/// Before any cell is processed, nothing is covered and nothing collided.
proof fn lemma_cover_empty(disp: Seq<bool>, sprite: Seq<u8>, x: u8, y: u8)
    ensures
        forall|idx: int| !covers_upto(sprite, x, y, 0, 0, idx),
        !collided_upto(disp, sprite, x, y, 0, 0),
{
    assert forall|idx: int| !covers_upto(sprite, x, y, 0, 0, idx) by {
        if covers_upto(sprite, x, y, 0, 0, idx) {
            let (r2, c2) = choose|r2: int, c2: int|
                covering_pair(sprite, x, y, r2, c2, idx) && pair_before(r2, c2, 0, 0);
            assert(false);
        }
    }
    if collided_upto(disp, sprite, x, y, 0, 0) {
        let (r2, c2) = choose|r2: int, c2: int|
            covering_pair(sprite, x, y, r2, c2, pix_index(x, y, r2, c2)) && pair_before(
                r2,
                c2,
                0,
                0,
            ) && disp[pix_index(x, y, r2, c2)];
        assert(false);
    }
}

/// Processing a clear sprite cell changes nothing.
proof fn lemma_extend_miss(disp: Seq<bool>, sprite: Seq<u8>, x: u8, y: u8, r: int, c: int)
    requires
        0 <= r < sprite.len(),
        0 <= c < 8,
        !sprite_bit(sprite[r], c),
    ensures
        forall|idx: int|
            #[trigger] covers_upto(sprite, x, y, r, c + 1, idx) == covers_upto(
                sprite,
                x,
                y,
                r,
                c,
                idx,
            ),
        collided_upto(disp, sprite, x, y, r, c + 1) == collided_upto(disp, sprite, x, y, r, c),
{
    assert forall|idx: int|
        #[trigger] covers_upto(sprite, x, y, r, c + 1, idx) == covers_upto(
            sprite,
            x,
            y,
            r,
            c,
            idx,
        ) by {
        if covers_upto(sprite, x, y, r, c + 1, idx) {
            let (r2, c2) = choose|r2: int, c2: int|
                covering_pair(sprite, x, y, r2, c2, idx) && pair_before(r2, c2, r, c + 1);
            assert(!(r2 == r && c2 == c));
            assert(covering_pair(sprite, x, y, r2, c2, idx) && pair_before(r2, c2, r, c));
        }
        if covers_upto(sprite, x, y, r, c, idx) {
            let (r2, c2) = choose|r2: int, c2: int|
                covering_pair(sprite, x, y, r2, c2, idx) && pair_before(r2, c2, r, c);
            assert(covering_pair(sprite, x, y, r2, c2, idx) && pair_before(r2, c2, r, c + 1));
        }
    }
    if collided_upto(disp, sprite, x, y, r, c + 1) {
        let (r2, c2) = choose|r2: int, c2: int|
            covering_pair(sprite, x, y, r2, c2, pix_index(x, y, r2, c2)) && pair_before(
                r2,
                c2,
                r,
                c + 1,
            ) && disp[pix_index(x, y, r2, c2)];
        assert(!(r2 == r && c2 == c));
        assert(pair_before(r2, c2, r, c));
        assert(collided_upto(disp, sprite, x, y, r, c));
    }
    if collided_upto(disp, sprite, x, y, r, c) {
        let (r2, c2) = choose|r2: int, c2: int|
            covering_pair(sprite, x, y, r2, c2, pix_index(x, y, r2, c2)) && pair_before(
                r2,
                c2,
                r,
                c,
            ) && disp[pix_index(x, y, r2, c2)];
        assert(pair_before(r2, c2, r, c + 1));
        assert(collided_upto(disp, sprite, x, y, r, c + 1));
    }
}

/// Processing a set sprite cell flips exactly its destination pixel, which
/// no earlier cell has touched.
proof fn lemma_extend_hit(disp: Seq<bool>, sprite: Seq<u8>, x: u8, y: u8, r: int, c: int)
    requires
        0 <= r < sprite.len(),
        sprite.len() <= 32,
        0 <= c < 8,
        sprite_bit(sprite[r], c),
    ensures
        !covers_upto(sprite, x, y, r, c, pix_index(x, y, r, c)),
        covers_upto(sprite, x, y, r, c + 1, pix_index(x, y, r, c)),
        forall|idx: int|
            idx != pix_index(x, y, r, c) ==> #[trigger] covers_upto(sprite, x, y, r, c + 1, idx)
                == covers_upto(sprite, x, y, r, c, idx),
        collided_upto(disp, sprite, x, y, r, c + 1) == (collided_upto(disp, sprite, x, y, r, c)
            || disp[pix_index(x, y, r, c)]),
{
    let idx0 = pix_index(x, y, r, c);
    if covers_upto(sprite, x, y, r, c, idx0) {
        let (r2, c2) = choose|r2: int, c2: int|
            covering_pair(sprite, x, y, r2, c2, idx0) && pair_before(r2, c2, r, c);
        lemma_pix_inj(x, y, r2, c2, r, c);
        assert(false);
    }
    assert(covering_pair(sprite, x, y, r, c, idx0) && pair_before(r, c, r, c + 1));
    assert forall|idx: int|
        idx != idx0 implies #[trigger] covers_upto(sprite, x, y, r, c + 1, idx) == covers_upto(
        sprite,
        x,
        y,
        r,
        c,
        idx,
    ) by {
        if covers_upto(sprite, x, y, r, c + 1, idx) {
            let (r2, c2) = choose|r2: int, c2: int|
                covering_pair(sprite, x, y, r2, c2, idx) && pair_before(r2, c2, r, c + 1);
            assert(!(r2 == r && c2 == c));
            assert(covering_pair(sprite, x, y, r2, c2, idx) && pair_before(r2, c2, r, c));
        }
        if covers_upto(sprite, x, y, r, c, idx) {
            let (r2, c2) = choose|r2: int, c2: int|
                covering_pair(sprite, x, y, r2, c2, idx) && pair_before(r2, c2, r, c);
            assert(covering_pair(sprite, x, y, r2, c2, idx) && pair_before(r2, c2, r, c + 1));
        }
    }
    // collision bookkeeping
    if collided_upto(disp, sprite, x, y, r, c + 1) {
        let (r2, c2) = choose|r2: int, c2: int|
            covering_pair(sprite, x, y, r2, c2, pix_index(x, y, r2, c2)) && pair_before(
                r2,
                c2,
                r,
                c + 1,
            ) && disp[pix_index(x, y, r2, c2)];
        if r2 == r && c2 == c {
            assert(disp[idx0]);
        } else {
            assert(pair_before(r2, c2, r, c));
            assert(collided_upto(disp, sprite, x, y, r, c));
        }
    }
    if collided_upto(disp, sprite, x, y, r, c) {
        let (r2, c2) = choose|r2: int, c2: int|
            covering_pair(sprite, x, y, r2, c2, pix_index(x, y, r2, c2)) && pair_before(
                r2,
                c2,
                r,
                c,
            ) && disp[pix_index(x, y, r2, c2)];
        assert(pair_before(r2, c2, r, c + 1));
        assert(collided_upto(disp, sprite, x, y, r, c + 1));
    }
    if disp[idx0] {
        assert(covering_pair(sprite, x, y, r, c, pix_index(x, y, r, c)) && pair_before(
            r,
            c,
            r,
            c + 1,
        ) && disp[pix_index(x, y, r, c)]);
        assert(collided_upto(disp, sprite, x, y, r, c + 1));
    }
}

/// Finishing a row is the same as standing at the start of the next one.
proof fn lemma_row_boundary(disp: Seq<bool>, sprite: Seq<u8>, x: u8, y: u8, r: int)
    requires
        0 <= r,
    ensures
        forall|idx: int|
            #[trigger] covers_upto(sprite, x, y, r, 8, idx) == covers_upto(
                sprite,
                x,
                y,
                r + 1,
                0,
                idx,
            ),
        collided_upto(disp, sprite, x, y, r, 8) == collided_upto(disp, sprite, x, y, r + 1, 0),
{
    assert forall|idx: int|
        #[trigger] covers_upto(sprite, x, y, r, 8, idx) == covers_upto(
            sprite,
            x,
            y,
            r + 1,
            0,
            idx,
        ) by {
        if covers_upto(sprite, x, y, r, 8, idx) {
            let (r2, c2) = choose|r2: int, c2: int|
                covering_pair(sprite, x, y, r2, c2, idx) && pair_before(r2, c2, r, 8);
            assert(covering_pair(sprite, x, y, r2, c2, idx) && pair_before(r2, c2, r + 1, 0));
        }
        if covers_upto(sprite, x, y, r + 1, 0, idx) {
            let (r2, c2) = choose|r2: int, c2: int|
                covering_pair(sprite, x, y, r2, c2, idx) && pair_before(r2, c2, r + 1, 0);
            assert(covering_pair(sprite, x, y, r2, c2, idx) && pair_before(r2, c2, r, 8));
        }
    }
    if collided_upto(disp, sprite, x, y, r, 8) {
        let (r2, c2) = choose|r2: int, c2: int|
            covering_pair(sprite, x, y, r2, c2, pix_index(x, y, r2, c2)) && pair_before(
                r2,
                c2,
                r,
                8,
            ) && disp[pix_index(x, y, r2, c2)];
        assert(pair_before(r2, c2, r + 1, 0));
        assert(collided_upto(disp, sprite, x, y, r + 1, 0));
    }
    if collided_upto(disp, sprite, x, y, r + 1, 0) {
        let (r2, c2) = choose|r2: int, c2: int|
            covering_pair(sprite, x, y, r2, c2, pix_index(x, y, r2, c2)) && pair_before(
                r2,
                c2,
                r + 1,
                0,
            ) && disp[pix_index(x, y, r2, c2)];
        assert(pair_before(r2, c2, r, 8));
        assert(collided_upto(disp, sprite, x, y, r, 8));
    }
}

/// Having processed every cell is the same as full coverage.
proof fn lemma_cover_full(disp: Seq<bool>, sprite: Seq<u8>, x: u8, y: u8)
    requires
        disp.len() == 2048,
    ensures
        forall|idx: int|
            #[trigger] covers_upto(sprite, x, y, sprite.len() as int, 0, idx) == covers(
                sprite,
                x,
                y,
                idx,
            ),
        collided_upto(disp, sprite, x, y, sprite.len() as int, 0) == draw_collision(
            disp,
            x,
            y,
            sprite,
        ),
{
    let n = sprite.len() as int;
    assert forall|idx: int|
        #[trigger] covers_upto(sprite, x, y, n, 0, idx) == covers(sprite, x, y, idx) by {
        if covers_upto(sprite, x, y, n, 0, idx) {
            let (r2, c2) = choose|r2: int, c2: int|
                covering_pair(sprite, x, y, r2, c2, idx) && pair_before(r2, c2, n, 0);
            assert(covering_pair(sprite, x, y, r2, c2, idx));
        }
        if covers(sprite, x, y, idx) {
            let (r2, c2) = choose|r2: int, c2: int| covering_pair(sprite, x, y, r2, c2, idx);
            assert(covering_pair(sprite, x, y, r2, c2, idx) && pair_before(r2, c2, n, 0));
        }
    }
    if collided_upto(disp, sprite, x, y, n, 0) {
        let (r2, c2) = choose|r2: int, c2: int|
            covering_pair(sprite, x, y, r2, c2, pix_index(x, y, r2, c2)) && pair_before(
                r2,
                c2,
                n,
                0,
            ) && disp[pix_index(x, y, r2, c2)];
        let idx = pix_index(x, y, r2, c2);
        lemma_pix_index_range(x, y, r2, c2);
        assert(covering_pair(sprite, x, y, r2, c2, idx));
        assert(covers(sprite, x, y, idx));
        assert(0 <= idx < disp.len() && disp[idx] && covers(sprite, x, y, idx));
    }
    if draw_collision(disp, x, y, sprite) {
        let idx = choose|idx: int| 0 <= idx < disp.len() && disp[idx] && covers(sprite, x, y, idx);
        let (r2, c2) = choose|r2: int, c2: int| covering_pair(sprite, x, y, r2, c2, idx);
        assert(covering_pair(sprite, x, y, r2, c2, pix_index(x, y, r2, c2)) && pair_before(
            r2,
            c2,
            n,
            0,
        ) && disp[pix_index(x, y, r2, c2)]);
        assert(collided_upto(disp, sprite, x, y, n, 0));
    }
}

/// The XOR blit is self-inverse: drawing the same sprite at the same spot
/// twice restores every pixel, and the second draw reports a collision
/// exactly when the first one set some previously clear pixel.
pub proof fn lemma_draw_twice_restores(disp: Seq<bool>, x: u8, y: u8, sprite: Seq<u8>)
    ensures
        draw_post(draw_post(disp, x, y, sprite), x, y, sprite) == disp,
        draw_collision(draw_post(disp, x, y, sprite), x, y, sprite) == (exists|idx: int|
            0 <= idx < disp.len() && !disp[idx] && covers(sprite, x, y, idx)),
{
    let d1 = draw_post(disp, x, y, sprite);
    assert(draw_post(d1, x, y, sprite) =~= disp);
    if draw_collision(d1, x, y, sprite) {
        let idx = choose|idx: int| 0 <= idx < d1.len() && d1[idx] && covers(sprite, x, y, idx);
        assert(0 <= idx < disp.len() && !disp[idx] && covers(sprite, x, y, idx));
    }
    if exists|idx: int| 0 <= idx < disp.len() && !disp[idx] && covers(sprite, x, y, idx) {
        let idx = choose|idx: int| 0 <= idx < disp.len() && !disp[idx] && covers(sprite, x, y, idx);
        assert(0 <= idx < d1.len() && d1[idx] && covers(sprite, x, y, idx));
    }
}

/// The 64 x 32 monochrome pixel grid, stored row-major: pixel (`px`, `py`)
/// lives at index `py * 64 + px`. Sprites are XOR-blitted with wraparound
/// on both axes.
pub struct Display {
    grid: Vec<bool>,
}

impl View for Display {
    type V = Seq<bool>;

    closed spec fn view(&self) -> Seq<bool> {
        self.grid@
    }
}

fn blank_grid() -> (grid: Vec<bool>)
    ensures
        grid@ == blank_display(),
{
    let mut grid: Vec<bool> = Vec::new();
    let mut n: usize = 0;
    while n < 2048
        invariant
            grid@.len() == n,
            n <= 2048,
            forall|j: int| 0 <= j < n ==> !grid@[j],
        decreases 2048 - n,
    {
        grid.push(false);
        n += 1;
    }
    proof {
        assert(grid@ =~= blank_display());
    }
    grid
}

fn col_weight_u8(c: usize) -> (w: u8)
    requires
        c < 8,
    ensures
        w as int == col_weight(c as int),
        w >= 1,
{
    if c == 0 {
        128
    } else if c == 1 {
        64
    } else if c == 2 {
        32
    } else if c == 3 {
        16
    } else if c == 4 {
        8
    } else if c == 5 {
        4
    } else if c == 6 {
        2
    } else {
        1
    }
}

impl Display {
    pub open spec fn wf(&self) -> bool {
        self@.len() == 2048
    }

    pub fn new() -> (d: Display)
        ensures
            d.wf(),
            d@ == blank_display(),
    {
        Display { grid: blank_grid() }
    }

    pub fn clear(&mut self)
        ensures
            final(self).wf(),
            final(self)@ == blank_display(),
    {
        self.grid = blank_grid();
    }

    /// Read one pixel of the row-major grid.
    pub fn pixel(&self, index: usize) -> (on: bool)
        requires
            self.wf(),
            index < 2048,
        ensures
            on == self@[index as int],
    {
        self.grid[index]
    }

    /// XOR-blit `sprite` at origin (`x`, `y`), wrapping on both axes, and
    /// report whether any destination pixel was already set before the XOR.
    pub fn draw_sprite(&mut self, x: u8, y: u8, sprite: Vec<u8>) -> (collision: bool)
        requires
            old(self).wf(),
            sprite@.len() <= 15,
        ensures
            final(self).wf(),
            final(self)@ == draw_post(old(self)@, x, y, sprite@),
            collision == draw_collision(old(self)@, x, y, sprite@),
    {
        let mut collision = false;
        let mut r: usize = 0;
        proof {
            lemma_cover_empty(old(self)@, sprite@, x, y);
        }
        while r < sprite.len()
            invariant
                self@.len() == 2048,
                old(self)@.len() == 2048,
                sprite@.len() <= 15,
                r <= sprite@.len(),
                forall|idx: int|
                    0 <= idx < 2048 ==> self@[idx] == (old(self)@[idx] != #[trigger] covers_upto(
                        sprite@,
                        x,
                        y,
                        r as int,
                        0,
                        idx,
                    )),
                collision == collided_upto(old(self)@, sprite@, x, y, r as int, 0),
            decreases sprite@.len() - r,
        {
            let rowdata = sprite[r];
            let mut c: usize = 0;
            while c < 8
                invariant
                    self@.len() == 2048,
                    old(self)@.len() == 2048,
                    sprite@.len() <= 15,
                    r < sprite@.len(),
                    c <= 8,
                    rowdata == sprite@[r as int],
                    forall|idx: int|
                        0 <= idx < 2048 ==> self@[idx] == (old(self)@[idx]
                            != #[trigger] covers_upto(sprite@, x, y, r as int, c as int, idx)),
                    collision == collided_upto(old(self)@, sprite@, x, y, r as int, c as int),
                decreases 8 - c,
            {
                let w = col_weight_u8(c);
                if (rowdata / w) % 2 == 1 {
                    let px = (x as usize + c) % 64;
                    let py = (y as usize + r) % 32;
                    let idx = py * 64 + px;
                    proof {
                        assert(idx as int == pix_index(x, y, r as int, c as int));
                        lemma_pix_index_range(x, y, r as int, c as int);
                        lemma_extend_hit(old(self)@, sprite@, x, y, r as int, c as int);
                    }
                    if self.grid[idx] {
                        collision = true;
                    }
                    let cur = self.grid[idx];
                    self.grid[idx] = !cur;
                } else {
                    proof {
                        lemma_extend_miss(old(self)@, sprite@, x, y, r as int, c as int);
                    }
                }
                c += 1;
            }
            proof {
                lemma_row_boundary(old(self)@, sprite@, x, y, r as int);
                assert forall|idx: int| 0 <= idx < 2048 implies self@[idx] == (old(self)@[idx]
                    != covers_upto(sprite@, x, y, r as int + 1, 0, idx)) by {
                    assert(covers_upto(sprite@, x, y, r as int, 8, idx) == covers_upto(
                        sprite@,
                        x,
                        y,
                        r as int + 1,
                        0,
                        idx,
                    ));
                    assert(self@[idx] == (old(self)@[idx] != covers_upto(
                        sprite@,
                        x,
                        y,
                        r as int,
                        8,
                        idx,
                    )));
                }
            }
            r += 1;
        }
        proof {
            lemma_cover_full(old(self)@, sprite@, x, y);
            assert forall|idx: int| 0 <= idx < 2048 implies self@[idx] == (old(self)@[idx]
                != covers(sprite@, x, y, idx)) by {
                assert(self@[idx] == (old(self)@[idx] != covers_upto(
                    sprite@,
                    x,
                    y,
                    sprite@.len() as int,
                    0,
                    idx,
                )));
            }
            assert(self@ =~= draw_post(old(self)@, x, y, sprite@));
        }
        collision
    }
}

/// A restartable cursor over the grid in row-major order.
pub struct DisplayIterator {
    pos: usize,
}

impl DisplayIterator {
    pub closed spec fn position(&self) -> int {
        self.pos as int
    }

    pub fn new() -> (it: DisplayIterator)
        ensures
            it.position() == 0,
    {
        DisplayIterator { pos: 0 }
    }

    /// The next pixel of `display` in row-major order, or `None` once all
    /// 2048 pixels have been produced.
    pub fn next(&mut self, display: &Display) -> (item: Option<bool>)
        requires
            display.wf(),
        ensures
            old(self).position() < 2048 ==> item == Some(display@[old(self).position()])
                && final(self).position() == old(self).position() + 1,
            old(self).position() >= 2048 ==> item == None::<bool> && final(self).position() == old(
                self,
            ).position(),
    {
        if self.pos < 2048 {
            let item = display.pixel(self.pos);
            self.pos += 1;
            Some(item)
        } else {
            None
        }
    }
}

} // verus!
