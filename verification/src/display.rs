//! The display surface: 64 by 32 monochrome pixels, drawn on by XOR.
//!
//! A sprite is up to fifteen rows of eight pixels, one byte per row, the most
//! significant bit leftmost. Drawing flips every pixel under a set bit of the
//! sprite. A sprite that reaches past an edge of the display comes back in on
//! the opposite edge. A draw reports a collision when it turned off a pixel
//! that was on.
//!
//! The surface is stored row by row: the pixel in column `x` of row `y` has
//! index `y * 64 + x`.

use vstd::prelude::*;

verus! {

/// The number of pixels in one row.
pub const DISPLAY_WIDTH: usize = 64;

/// The number of rows.
pub const DISPLAY_HEIGHT: usize = 32;

/// The number of pixels.
pub const DISPLAY_PIXELS: usize = 2048;

/// The number of pixels in one row of a sprite.
pub const SPRITE_WIDTH: usize = 8;

/// The largest number of rows in a sprite.
pub const SPRITE_MAX_ROWS: usize = 15;

/// A display with every pixel off.
pub open spec fn blank_display() -> Seq<bool> {
    Seq::new(DISPLAY_PIXELS as nat, |k: int| false)
}

/// Whether the pixel in column `col` of a sprite row is set. Column 0 is the
/// leftmost pixel, the row's most significant bit.
pub open spec fn row_bit(row: u8, col: u8) -> bool {
    row & (0x80u8 >> col) != 0
}

/// The column of the sprite that falls on display pixel `k`, for a sprite whose
/// left edge is at `ox`.
pub open spec fn sprite_col(ox: int, k: int) -> int {
    (k % 64 - ox) % 64
}

/// The row of the sprite that falls on display pixel `k`, for a sprite whose
/// top edge is at `oy`.
pub open spec fn sprite_row(oy: int, k: int) -> int {
    (k / 64 - oy) % 32
}

/// Whether the sprite `rows`, drawn with its top left corner at `(ox, oy)`,
/// has a set bit on display pixel `k`.
pub open spec fn covers(rows: Seq<u8>, ox: int, oy: int, k: int) -> bool {
    &&& sprite_col(ox, k) < SPRITE_WIDTH
    &&& sprite_row(oy, k) < rows.len()
    &&& row_bit(rows[sprite_row(oy, k)], sprite_col(ox, k) as u8)
}

/// The display `d` after the sprite was drawn on it: the pixels that the sprite
/// covers are flipped, the others are kept.
pub open spec fn blend(d: Seq<bool>, rows: Seq<u8>, ox: int, oy: int) -> Seq<bool> {
    Seq::new(DISPLAY_PIXELS as nat, |k: int| d[k] != covers(rows, ox, oy, k))
}

/// Whether drawing the sprite on `d` turns a pixel off.
pub open spec fn collides(d: Seq<bool>, rows: Seq<u8>, ox: int, oy: int) -> bool {
    exists|k: int| 0 <= k < DISPLAY_PIXELS && d[k] && #[trigger] covers(rows, ox, oy, k)
}

/// Whether the sprite has a set bit on pixel `k` in one of the cells that a
/// draw has gone through when it stands at column `c` of row `r`.
spec fn covers_before(rows: Seq<u8>, ox: int, oy: int, k: int, r: int, c: int) -> bool {
    &&& covers(rows, ox, oy, k)
    &&& (sprite_row(oy, k) < r || (sprite_row(oy, k) == r && sprite_col(ox, k) < c))
}

/// The display `d` after a draw has gone through the cells before column `c`
/// of row `r`.
spec fn blend_before(d: Seq<bool>, rows: Seq<u8>, ox: int, oy: int, r: int, c: int) -> Seq<bool> {
    Seq::new(DISPLAY_PIXELS as nat, |k: int| d[k] != covers_before(rows, ox, oy, k, r, c))
}

/// Whether a draw on `d` has turned a pixel off in the cells before column
/// `c` of row `r`.
spec fn collides_before(d: Seq<bool>, rows: Seq<u8>, ox: int, oy: int, r: int, c: int) -> bool {
    exists|k: int|
        0 <= k < DISPLAY_PIXELS && d[k] && #[trigger] covers_before(rows, ox, oy, k, r, c)
}

/// The display pixel under cell `(r, c)` of a sprite drawn at `(ox, oy)`.
pub open spec fn pixel_under(ox: int, oy: int, r: int, c: int) -> int {
    ((oy + r) % 32) * 64 + (ox + c) % 64
}

/// A cell of the sprite lies on exactly one pixel, and that pixel lies under
/// no other cell.
proof fn lemma_pixel_under(ox: int, oy: int, r: int, c: int)
    requires
        0 <= r < 32,
        0 <= c < 64,
    ensures
        0 <= pixel_under(ox, oy, r, c) < DISPLAY_PIXELS,
        sprite_row(oy, pixel_under(ox, oy, r, c)) == r,
        sprite_col(ox, pixel_under(ox, oy, r, c)) == c,
        forall|k: int|
            0 <= k < DISPLAY_PIXELS && sprite_row(oy, k) == r && #[trigger] sprite_col(ox, k) == c
                ==> k == pixel_under(ox, oy, r, c),
{
}

/// The display surface.
#[derive(Debug)]
pub struct Display {
    pixels: [bool; 2048],
}

impl Display {
    /// The pixels, row by row; `true` is on.
    pub closed spec fn view(&self) -> Seq<bool> {
        self.pixels@
    }

    /// There are always exactly `DISPLAY_PIXELS` pixels.
    pub broadcast proof fn lemma_size(&self)
        ensures
            #![trigger self@]
            self@.len() == DISPLAY_PIXELS,
    {
    }

    /// A display with every pixel off.
    pub fn new() -> (d: Display)
        ensures
            d@ == blank_display(),
    {
        let d = Display { pixels: [false; 2048] };
        assert(d@ =~= blank_display());
        d
    }

    /// The pixel in column `x` of row `y`, or `None` where the display has no
    /// such pixel.
    pub fn pixel(&self, x: usize, y: usize) -> (p: Option<bool>)
        ensures
            p == if x < DISPLAY_WIDTH && y < DISPLAY_HEIGHT {
                Some(self@[y * 64 + x])
            } else {
                None
            },
    {
        if x < DISPLAY_WIDTH && y < DISPLAY_HEIGHT {
            Some(self.pixels[y * 64 + x])
        } else {
            None
        }
    }

    /// Draws the first `count` rows of `sprite` with their top left corner in
    /// column `x` of row `y`, and says whether a pixel went off.
    pub fn draw_sprite(&mut self, x: u8, y: u8, sprite: &[u8; 15], count: usize) -> (collision:
        bool)
        requires
            count <= SPRITE_MAX_ROWS,
        ensures
            final(self)@ == blend(old(self)@, sprite@.take(count as int), x as int, y as int),
            collision == collides(old(self)@, sprite@.take(count as int), x as int, y as int),
        no_unwind
    {
        let ghost rows = sprite@.take(count as int);
        let ghost d0 = self@;
        let ghost ox = x as int;
        let ghost oy = y as int;
        let mut collision = false;
        let mut r: usize = 0;
        assert(self@ =~= blend_before(d0, rows, ox, oy, 0, 0));
        while r < count
            invariant
                r <= count <= SPRITE_MAX_ROWS,
                rows == sprite@.take(count as int),
                d0.len() == DISPLAY_PIXELS,
                ox == x,
                oy == y,
                self@ == blend_before(d0, rows, ox, oy, r as int, 0),
                collision == collides_before(d0, rows, ox, oy, r as int, 0),
            decreases count - r,
        {
            let bits: u8 = sprite[r];
            let py: usize = (y as usize + r) % 32;
            let mut c: usize = 0;
            while c < 8
                invariant
                    r < count <= SPRITE_MAX_ROWS,
                    c <= 8,
                    rows == sprite@.take(count as int),
                    bits == rows[r as int],
                    py == (oy + r) % 32,
                    d0.len() == DISPLAY_PIXELS,
                    ox == x,
                    oy == y,
                    self@ == blend_before(d0, rows, ox, oy, r as int, c as int),
                    collision == collides_before(d0, rows, ox, oy, r as int, c as int),
                decreases 8 - c,
            {
                let px: usize = (x as usize + c) % 64;
                let k: usize = py * 64 + px;
                let ghost before = self@;
                let ghost hit = collision;
                proof {
                    lemma_pixel_under(ox, oy, r as int, c as int);
                    assert(k == pixel_under(ox, oy, r as int, c as int));
                }
                let set: bool = bits & (0x80u8 >> c) != 0;
                if set {
                    if self.pixels[k] {
                        collision = true;
                    }
                    self.pixels[k] = !self.pixels[k];
                }
                proof {
                    let kk = k as int;
                    assert(covers(rows, ox, oy, kk) == set);
                    assert(!covers_before(rows, ox, oy, kk, r as int, c as int));
                    assert(before[kk] == d0[kk]);
                    assert forall|j: int| 0 <= j < DISPLAY_PIXELS implies #[trigger] covers_before(
                        rows,
                        ox,
                        oy,
                        j,
                        r as int,
                        c + 1,
                    ) == (covers_before(rows, ox, oy, j, r as int, c as int) || (j == kk && set)) by {
                        if sprite_row(oy, j) == r && sprite_col(ox, j) == c {
                            assert(j == kk);
                        }
                    }
                    assert(self@ =~= blend_before(d0, rows, ox, oy, r as int, c + 1));
                    if collides_before(d0, rows, ox, oy, r as int, c + 1) {
                        let j = choose|j: int|
                            0 <= j < DISPLAY_PIXELS && d0[j] && #[trigger] covers_before(
                                rows,
                                ox,
                                oy,
                                j,
                                r as int,
                                c + 1,
                            );
                        if !(j == kk && set) {
                            assert(covers_before(rows, ox, oy, j, r as int, c as int));
                        }
                    }
                    if hit {
                        let j = choose|j: int|
                            0 <= j < DISPLAY_PIXELS && d0[j] && #[trigger] covers_before(
                                rows,
                                ox,
                                oy,
                                j,
                                r as int,
                                c as int,
                            );
                        assert(covers_before(rows, ox, oy, j, r as int, c + 1));
                    }
                    if set && d0[kk] {
                        assert(covers_before(rows, ox, oy, kk, r as int, c + 1));
                    }
                }
                c = c + 1;
            }
            proof {
                assert forall|j: int| 0 <= j < DISPLAY_PIXELS implies #[trigger] covers_before(
                    rows,
                    ox,
                    oy,
                    j,
                    r as int,
                    8,
                ) == covers_before(rows, ox, oy, j, r + 1, 0) by {}
                assert(blend_before(d0, rows, ox, oy, r as int, 8) =~= blend_before(
                    d0,
                    rows,
                    ox,
                    oy,
                    r + 1,
                    0,
                ));
                lemma_collides_before_same(d0, rows, ox, oy, r as int, 8, r + 1, 0);
            }
            r = r + 1;
        }
        proof {
            let n = count as int;
            assert forall|j: int| 0 <= j < DISPLAY_PIXELS implies #[trigger] covers_before(
                rows,
                ox,
                oy,
                j,
                n,
                0,
            ) == covers(rows, ox, oy, j) by {}
            assert(self@ =~= blend(d0, rows, ox, oy));
            if collides(d0, rows, ox, oy) {
                let j = choose|j: int|
                    0 <= j < DISPLAY_PIXELS && d0[j] && #[trigger] covers(rows, ox, oy, j);
                assert(covers_before(rows, ox, oy, j, n, 0));
            }
            if collision {
                let j = choose|j: int|
                    0 <= j < DISPLAY_PIXELS && d0[j] && #[trigger] covers_before(
                        rows,
                        ox,
                        oy,
                        j,
                        n,
                        0,
                    );
                assert(covers(rows, ox, oy, j));
            }
        }
        collision
    }
}

/// Two positions of a draw that have gone through the same cells have met the
/// same collisions.
proof fn lemma_collides_before_same(
    d: Seq<bool>,
    rows: Seq<u8>,
    ox: int,
    oy: int,
    r1: int,
    c1: int,
    r2: int,
    c2: int,
)
    requires
        forall|j: int|
            0 <= j < DISPLAY_PIXELS ==> #[trigger] covers_before(rows, ox, oy, j, r1, c1)
                == covers_before(rows, ox, oy, j, r2, c2),
    ensures
        collides_before(d, rows, ox, oy, r1, c1) == collides_before(d, rows, ox, oy, r2, c2),
{
    if collides_before(d, rows, ox, oy, r1, c1) {
        let j = choose|j: int|
            0 <= j < DISPLAY_PIXELS && d[j] && #[trigger] covers_before(rows, ox, oy, j, r1, c1);
        assert(covers_before(rows, ox, oy, j, r2, c2));
    }
    if collides_before(d, rows, ox, oy, r2, c2) {
        let j = choose|j: int|
            0 <= j < DISPLAY_PIXELS && d[j] && #[trigger] covers_before(rows, ox, oy, j, r2, c2);
        assert(covers_before(rows, ox, oy, j, r1, c1));
    }
}

/// Whether the sprite has a set bit at all.
pub open spec fn has_set_bit(rows: Seq<u8>) -> bool {
    exists|r: int, c: u8| 0 <= r < rows.len() && c < SPRITE_WIDTH && #[trigger] row_bit(rows[r], c)
}

/// Drawing a sprite twice in the same place leaves the display as it was.
pub proof fn lemma_draw_twice_restores(d: Seq<bool>, rows: Seq<u8>, ox: int, oy: int)
    requires
        d.len() == DISPLAY_PIXELS,
    ensures
        blend(blend(d, rows, ox, oy), rows, ox, oy) == d,
{
    assert(blend(blend(d, rows, ox, oy), rows, ox, oy) =~= d);
}

/// The second of two draws in the same place collides exactly when the first
/// one turned a pixel on, that is when the sprite covers a pixel that was off
/// before the first draw.
pub proof fn lemma_second_draw_collides(d: Seq<bool>, rows: Seq<u8>, ox: int, oy: int)
    requires
        d.len() == DISPLAY_PIXELS,
    ensures
        collides(blend(d, rows, ox, oy), rows, ox, oy) <==> exists|k: int|
            0 <= k < DISPLAY_PIXELS && !d[k] && #[trigger] covers(rows, ox, oy, k),
{
    let once = blend(d, rows, ox, oy);
    if collides(once, rows, ox, oy) {
        let k = choose|k: int| 0 <= k < DISPLAY_PIXELS && once[k] && #[trigger] covers(rows, ox, oy, k);
        assert(!d[k]);
    }
    if exists|k: int| 0 <= k < DISPLAY_PIXELS && !d[k] && #[trigger] covers(rows, ox, oy, k) {
        let k = choose|k: int| 0 <= k < DISPLAY_PIXELS && !d[k] && #[trigger] covers(rows, ox, oy, k);
        assert(once[k]);
    }
}

/// On a blank display, a sprite with a set bit drawn twice in the same place
/// is gone after the second draw, and the second draw collides while the
/// first does not.
pub proof fn lemma_redraw_on_blank(rows: Seq<u8>, ox: int, oy: int)
    requires
        rows.len() <= DISPLAY_HEIGHT,
        has_set_bit(rows),
    ensures
        !collides(blank_display(), rows, ox, oy),
        collides(blend(blank_display(), rows, ox, oy), rows, ox, oy),
        blend(blend(blank_display(), rows, ox, oy), rows, ox, oy) == blank_display(),
{
    let d = blank_display();
    lemma_draw_twice_restores(d, rows, ox, oy);
    lemma_second_draw_collides(d, rows, ox, oy);
    let (r, c) = choose|r: int, c: u8|
        0 <= r < rows.len() && c < SPRITE_WIDTH && #[trigger] row_bit(rows[r], c);
    lemma_pixel_under(ox, oy, r, c as int);
    let k = pixel_under(ox, oy, r, c as int);
    assert(covers(rows, ox, oy, k));
}

} // verus!
