use vstd::prelude::*;

verus! {

/// Width of the monochrome bitmap display, in pixels.
pub const DISPLAY_WIDTH: usize = 64;

/// Height of the monochrome bitmap display, in pixels.
pub const DISPLAY_HEIGHT: usize = 32;

/// Number of pixels in the grid.
pub const DISPLAY_PIXELS: usize = 2048;

/// Flat index of the pixel at column `x`, row `y`, for coordinates already
/// reduced modulo the grid size.
pub open spec fn pixel_index(x: int, y: int) -> int {
    y * 64 + x
}

/// The state of the pixel addressed by `(x, y)`; both axes wrap modulo the
/// grid size.
pub open spec fn pixel_at(grid: Seq<bool>, x: u8, y: u8) -> bool {
    grid[pixel_index((x as int) % 64, (y as int) % 32)]
}

/// A grid with every pixel unlit.
pub open spec fn blank_grid() -> Seq<bool> {
    Seq::new(2048, |i: int| false)
}

/// Whether column `c` of the sprite row byte `row` is set; column 0 is the
/// most significant bit.
pub open spec fn sprite_bit(row: u8, c: int) -> bool {
    (row >> ((7 - c) as u8)) & 1 == 1
}

/// Whether drawing `sprite` at `(x, y)` touches the pixel with flat index `i`.
/// Row `r` of the sprite lands on display row `(y + r) % 32` and its column
/// `c` on display column `(x + c) % 64`: both axes wrap.
pub open spec fn sprite_covers(x: u8, y: u8, sprite: Seq<u8>, i: int) -> bool {
    exists|r: int, c: int|
        0 <= r < sprite.len() && 0 <= c < 8 && sprite_bit(sprite[r], c) && i == pixel_index(
            (x + c) % 64,
            (y + r) % 32,
        )
}

/// The grid after XOR-compositing `sprite` at `(x, y)` into `grid`.
pub open spec fn draw_result(grid: Seq<bool>, x: u8, y: u8, sprite: Seq<u8>) -> Seq<bool> {
    Seq::new(grid.len(), |i: int| grid[i] != sprite_covers(x, y, sprite, i))
}

/// Whether drawing `sprite` at `(x, y)` turns some previously lit pixel off,
/// i.e. the draw lands on a lit pixel.
pub open spec fn draw_collision(grid: Seq<bool>, x: u8, y: u8, sprite: Seq<u8>) -> bool {
    exists|i: int| 0 <= i < grid.len() && grid[i] && sprite_covers(x, y, sprite, i)
}

/// Like `sprite_covers`, but counting only the sprite positions strictly
/// before row `rows`, plus those on row `rows` before column `cols`.
spec fn sprite_covers_upto(x: u8, y: u8, sprite: Seq<u8>, rows: int, cols: int, i: int) -> bool {
    exists|r: int, c: int|
        0 <= r < sprite.len() && 0 <= c < 8 && (r < rows || (r == rows && c < cols))
            && sprite_bit(sprite[r], c) && i == pixel_index((x + c) % 64, (y + r) % 32)
}

/// The grid after compositing only the sprite positions before `(rows, cols)`.
spec fn partial_draw(grid: Seq<bool>, x: u8, y: u8, sprite: Seq<u8>, rows: int, cols: int) -> Seq<
    bool,
> {
    Seq::new(grid.len(), |i: int| grid[i] != sprite_covers_upto(x, y, sprite, rows, cols, i))
}

/// Whether some sprite position before `(rows, cols)` landed on a lit pixel.
spec fn partial_collision(grid: Seq<bool>, x: u8, y: u8, sprite: Seq<u8>, rows: int, cols: int) -> bool {
    exists|i: int| 0 <= i < grid.len() && grid[i] && sprite_covers_upto(x, y, sprite, rows, cols, i)
}

/// Two distinct in-range offsets from the same base stay distinct after the
/// wrap, because they are less than one full wrap apart.
proof fn lemma_wrap_distinct(a: int, r1: int, r2: int, m: int)
    requires
        m > 0,
        0 <= r1 < m,
        0 <= r2 < m,
        (a + r1) % m == (a + r2) % m,
    ensures
        r1 == r2,
{
    vstd::arithmetic::div_mod::lemma_fundamental_div_mod(a + r1, m);
    vstd::arithmetic::div_mod::lemma_fundamental_div_mod(a + r2, m);
    assert(r1 == r2) by (nonlinear_arith)
        requires
            a + r1 == m * ((a + r1) / m) + (a + r1) % m,
            a + r2 == m * ((a + r2) / m) + (a + r2) % m,
            (a + r1) % m == (a + r2) % m,
            m > 0,
            0 <= r1 < m,
            0 <= r2 < m,
    ;
}

/// Distinct sprite positions land on distinct pixels: rows stay distinct
/// because a sprite has at most 15 rows on a 32-row grid, and columns because
/// a row is 8 pixels wide on a 64-column grid.
proof fn lemma_cover_position_unique(
    x: u8,
    y: u8,
    sprite: Seq<u8>,
    r1: int,
    c1: int,
    r2: int,
    c2: int,
)
    requires
        sprite.len() <= 15,
        0 <= r1 < sprite.len(),
        0 <= c1 < 8,
        0 <= r2 < sprite.len(),
        0 <= c2 < 8,
        pixel_index((x + c1) % 64, (y + r1) % 32) == pixel_index((x + c2) % 64, (y + r2) % 32),
    ensures
        r1 == r2,
        c1 == c2,
{
    let px1 = (x + c1) % 64;
    let py1 = (y + r1) % 32;
    let px2 = (x + c2) % 64;
    let py2 = (y + r2) % 32;
    assert(0 <= px1 < 64 && 0 <= px2 < 64 && 0 <= py1 < 32 && 0 <= py2 < 32);
    assert(px1 == px2 && py1 == py2) by (nonlinear_arith)
        requires
            py1 * 64 + px1 == py2 * 64 + px2,
            0 <= px1 < 64,
            0 <= px2 < 64,
            0 <= py1 < 32,
            0 <= py2 < 32,
    ;
    lemma_wrap_distinct(x as int, c1, c2, 64);
    lemma_wrap_distinct(y as int, r1, r2, 32);
}

/// The monochrome bitmap display: a 64 by 32 grid of lit/unlit pixels,
/// stored row-major.
pub struct Display {
    pub pixels: Vec<bool>,
}

impl View for Display {
    type V = Seq<bool>;

    open spec fn view(&self) -> Seq<bool> {
        self.pixels@
    }
}

impl Display {
    /// A display is well formed when it holds one cell per pixel of the grid.
    pub open spec fn wf(&self) -> bool {
        self@.len() == 2048
    }

    pub fn new() -> (d: Display)
        ensures
            d.wf(),
            d@ == blank_grid(),
    {
        let d = Display { pixels: vec![false; DISPLAY_PIXELS] };
        proof {
            assert(d@ =~= blank_grid());
        }
        d
    }

    /// Set every pixel unlit.
    pub fn cls(&mut self)
        requires
            old(self).wf(),
        ensures
            final(self).wf(),
            final(self)@ == blank_grid(),
    {
        self.pixels = vec![false; DISPLAY_PIXELS];
        proof {
            assert(self@ =~= blank_grid());
        }
    }

    /// Read the pixel addressed by `(x, y)`; both axes wrap.
    pub fn get_pixel(&self, x: u8, y: u8) -> (lit: bool)
        requires
            self.wf(),
        ensures
            lit == pixel_at(self@, x, y),
    {
        let px = (x as usize) % DISPLAY_WIDTH;
        let py = (y as usize) % DISPLAY_HEIGHT;
        self.pixels[py * 64 + px]
    }

    /// Write the pixel addressed by `(x, y)`; both axes wrap.
    pub fn set_pixel(&mut self, x: u8, y: u8, value: bool)
        requires
            old(self).wf(),
        ensures
            final(self).wf(),
            final(self)@ == old(self)@.update(
                pixel_index((x as int) % 64, (y as int) % 32),
                value,
            ),
    {
        let px = (x as usize) % DISPLAY_WIDTH;
        let py = (y as usize) % DISPLAY_HEIGHT;
        self.pixels[py * 64 + px] = value;
    }

    /// XOR-composite a sprite of up to 15 rows of 8 pixels into the grid at
    /// `(x, y)`, wrapping both axes, and report whether any previously lit
    /// pixel was turned off.
    pub fn draw_sprite(&mut self, x: u8, y: u8, sprite: &Vec<u8>) -> (collision: bool)
        requires
            old(self).wf(),
            sprite@.len() <= 15,
        ensures
            final(self).wf(),
            final(self)@ == draw_result(old(self)@, x, y, sprite@),
            collision == draw_collision(old(self)@, x, y, sprite@),
    {
        let ghost g0 = old(self)@;
        let ghost s = sprite@;
        let mut collision = false;
        let mut r: usize = 0;
        proof {
            assert(self@ =~= partial_draw(g0, x, y, s, 0, 0));
        }
        while r < sprite.len()
            invariant
                self.wf(),
                s == sprite@,
                s.len() <= 15,
                r <= s.len(),
                g0.len() == 2048,
                self@ == partial_draw(g0, x, y, s, r as int, 0),
                collision == partial_collision(g0, x, y, s, r as int, 0),
            decreases s.len() - r,
        {
            let row = sprite[r];
            let mut c: usize = 0;
            while c < 8
                invariant
                    self.wf(),
                    s == sprite@,
                    s.len() <= 15,
                    r < s.len(),
                    row == s[r as int],
                    c <= 8,
                    g0.len() == 2048,
                    self@ == partial_draw(g0, x, y, s, r as int, c as int),
                    collision == partial_collision(g0, x, y, s, r as int, c as int),
                decreases 8 - c,
            {
                let ghost ri = r as int;
                let ghost ci = c as int;
                if (row >> ((7 - c) as u8)) & 1 == 1 {
                    let px = (x as usize + c) % DISPLAY_WIDTH;
                    let py = (y as usize + r) % DISPLAY_HEIGHT;
                    let idx = py * DISPLAY_WIDTH + px;
                    let ghost gi = idx as int;
                    proof {
                        assert(gi == pixel_index((x + ci) % 64, (y + ri) % 32));
                        assert(0 <= gi < 2048);
                        // No earlier sprite position lands on this pixel.
                        if sprite_covers_upto(x, y, s, ri, ci, gi) {
                            let (r2, c2) = choose|r2: int, c2: int|
                                0 <= r2 < s.len() && 0 <= c2 < 8 && (r2 < ri || (r2 == ri && c2
                                    < ci)) && sprite_bit(s[r2], c2) && gi == pixel_index(
                                    (x + c2) % 64,
                                    (y + r2) % 32,
                                );
                            lemma_cover_position_unique(x, y, s, r2, c2, ri, ci);
                            assert(false);
                        }
                    }
                    let old_p = self.pixels[idx];
                    if old_p {
                        collision = true;
                    }
                    self.pixels[idx] = !old_p;
                    proof {
                        assert(sprite_bit(s[ri], ci));
                        assert(sprite_covers_upto(x, y, s, ri, ci + 1, gi));
                        assert forall|i: int| 0 <= i < 2048 && i != gi implies sprite_covers_upto(
                            x,
                            y,
                            s,
                            ri,
                            ci + 1,
                            i,
                        ) == sprite_covers_upto(x, y, s, ri, ci, i) by {
                            if sprite_covers_upto(x, y, s, ri, ci + 1, i) {
                                let (r2, c2) = choose|r2: int, c2: int|
                                    0 <= r2 < s.len() && 0 <= c2 < 8 && (r2 < ri || (r2 == ri && c2
                                        < ci + 1)) && sprite_bit(s[r2], c2) && i == pixel_index(
                                        (x + c2) % 64,
                                        (y + r2) % 32,
                                    );
                                if r2 == ri && c2 == ci {
                                    assert(i == gi);
                                } else {
                                    assert(sprite_covers_upto(x, y, s, ri, ci, i));
                                }
                            }
                        }
                        assert(self@ =~= partial_draw(g0, x, y, s, ri, ci + 1));
                        // The flipped pixel still held its original value, so
                        // the collision flag tracks the original grid.
                        assert(old_p == g0[gi]);
                        if collision {
                            assert(partial_collision(g0, x, y, s, ri, ci + 1)) by {
                                if old_p {
                                    assert(g0[gi] && sprite_covers_upto(x, y, s, ri, ci + 1, gi));
                                } else {
                                    let i = choose|i: int|
                                        0 <= i < 2048 && g0[i] && sprite_covers_upto(
                                            x,
                                            y,
                                            s,
                                            ri,
                                            ci,
                                            i,
                                        );
                                    assert(sprite_covers_upto(x, y, s, ri, ci + 1, i));
                                }
                            }
                        } else {
                            assert(!partial_collision(g0, x, y, s, ri, ci + 1)) by {
                                if partial_collision(g0, x, y, s, ri, ci + 1) {
                                    let i = choose|i: int|
                                        0 <= i < 2048 && g0[i] && sprite_covers_upto(
                                            x,
                                            y,
                                            s,
                                            ri,
                                            ci + 1,
                                            i,
                                        );
                                    if i == gi {
                                        assert(false);
                                    } else {
                                        assert(sprite_covers_upto(x, y, s, ri, ci, i));
                                        assert(false);
                                    }
                                }
                            }
                        }
                    }
                } else {
                    proof {
                        assert forall|i: int| 0 <= i < 2048 implies sprite_covers_upto(
                            x,
                            y,
                            s,
                            ri,
                            ci + 1,
                            i,
                        ) == sprite_covers_upto(x, y, s, ri, ci, i) by {
                            if sprite_covers_upto(x, y, s, ri, ci + 1, i) {
                                let (r2, c2) = choose|r2: int, c2: int|
                                    0 <= r2 < s.len() && 0 <= c2 < 8 && (r2 < ri || (r2 == ri && c2
                                        < ci + 1)) && sprite_bit(s[r2], c2) && i == pixel_index(
                                        (x + c2) % 64,
                                        (y + r2) % 32,
                                    );
                                assert(!(r2 == ri && c2 == ci));
                                assert(sprite_covers_upto(x, y, s, ri, ci, i));
                            }
                        }
                        assert(self@ =~= partial_draw(g0, x, y, s, ri, ci + 1));
                    }
                }
                c = c + 1;
            }
            proof {
                let ri = r as int;
                assert forall|i: int| 0 <= i < 2048 implies sprite_covers_upto(x, y, s, ri, 8, i)
                    == sprite_covers_upto(x, y, s, ri + 1, 0, i) by {}
                assert(self@ =~= partial_draw(g0, x, y, s, ri + 1, 0));
            }
            r = r + 1;
        }
        proof {
            let n = s.len() as int;
            assert forall|i: int| 0 <= i < 2048 implies sprite_covers_upto(x, y, s, n, 0, i)
                == sprite_covers(x, y, s, i) by {}
            assert(self@ =~= draw_result(g0, x, y, s));
        }
        collision
    }
}

/// After the display is cleared, every pixel query reports unlit, whatever
/// the coordinates.
pub proof fn lemma_cleared_display_unlit(x: u8, y: u8)
    ensures
        !pixel_at(blank_grid(), x, y),
{
    assert(0 <= (x as int) % 64 < 64);
    assert(0 <= (y as int) % 32 < 32);
}

/// Drawing the same sprite twice at the same coordinates restores every
/// pixel the first draw changed. Against a blank display the first draw
/// reports no collision, and the second draw reports one as long as the
/// sprite has at least one bit set.
pub proof fn lemma_draw_twice_restores(grid: Seq<bool>, x: u8, y: u8, sprite: Seq<u8>)
    requires
        grid.len() == 2048,
        sprite.len() <= 15,
    ensures
        draw_result(draw_result(grid, x, y, sprite), x, y, sprite) == grid,
        (forall|i: int| 0 <= i < grid.len() ==> !grid[i]) ==> !draw_collision(grid, x, y, sprite),
        ((forall|i: int| 0 <= i < grid.len() ==> !grid[i]) && (exists|r: int, c: int|
            0 <= r < sprite.len() && 0 <= c < 8 && sprite_bit(sprite[r], c))) ==> draw_collision(
            draw_result(grid, x, y, sprite),
            x,
            y,
            sprite,
        ),
{
    let once = draw_result(grid, x, y, sprite);
    assert(draw_result(once, x, y, sprite) =~= grid);
    if (forall|i: int| 0 <= i < grid.len() ==> !grid[i]) && (exists|r: int, c: int|
        0 <= r < sprite.len() && 0 <= c < 8 && sprite_bit(sprite[r], c)) {
        let (r, c) = choose|r: int, c: int|
            0 <= r < sprite.len() && 0 <= c < 8 && sprite_bit(sprite[r], c);
        let i = pixel_index((x + c) % 64, (y + r) % 32);
        assert(0 <= (x + c) % 64 < 64);
        assert(0 <= (y + r) % 32 < 32);
        assert(0 <= i < 2048);
        assert(sprite_covers(x, y, sprite, i));
        assert(once[i] && sprite_covers(x, y, sprite, i));
    }
}

} // verus!
