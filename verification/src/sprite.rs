use vstd::prelude::*;

use crate::constants::{DISPLAY_HEIGHT, DISPLAY_SIZE, DISPLAY_WIDTH};

verus! {

/// A sprite being drawn: `n` rows read from RAM at `i`, one byte per row,
/// most significant bit leftmost, placed with its top-left pixel at column
/// `xs` and row `ys`. Its pixels are numbered row by row: pixel `k` lies in
/// row `k / 8` and column `k % 8`. With `clip`, pixels past the right or
/// bottom edge are not drawn; without it they wrap around.
pub struct Sprite {
    pub memory: Seq<u8>,
    pub i: int,
    pub xs: int,
    pub ys: int,
    pub clip: bool,
}

impl Sprite {
    /// Whether pixel `k` of the sprite's bitmap is set.
    pub open spec fn bit(self, k: int) -> bool {
        let byte = self.memory[self.i + k / 8];
        (byte >> ((7 - k % 8) as u8)) & 1u8 != 0
    }

    /// Whether pixel `k` lies on the screen (always, when not clipping).
    pub open spec fn visible(self, k: int) -> bool {
        !self.clip || (self.xs + k % 8 < DISPLAY_WIDTH && self.ys + k / 8 < DISPLAY_HEIGHT)
    }

    /// Whether pixel `k` is drawn: set in the bitmap and visible.
    pub open spec fn lit(self, k: int) -> bool {
        self.bit(k) && self.visible(k)
    }

    /// Display index hit by pixel `k`; coordinates wrap around both edges.
    pub open spec fn index(self, k: int) -> int {
        pixel_index(self.xs, self.ys, k)
    }
}

/// Display index hit by pixel `k` of a sprite drawn at column `xs`, row
/// `ys`; coordinates wrap around both edges of the screen.
pub open spec fn pixel_index(xs: int, ys: int, k: int) -> int {
    ((ys + k / 8) % (DISPLAY_HEIGHT as int)) * (DISPLAY_WIDTH as int) + (xs + k % 8) % (
    DISPLAY_WIDTH as int)
}

/// The display and the collision flag after the first `k` pixels of the
/// sprite have been XORed onto `display`, in order. The flag is set when a
/// set sprite pixel turned off a pixel that was on.
pub open spec fn draw_pixels(
    display: Seq<bool>,
    sp: Sprite,
    k: nat,
) -> (Seq<bool>, bool)
    decreases k,
{
    if k == 0 {
        (display, false)
    } else {
        let (d, c) = draw_pixels(display, sp, (k - 1) as nat);
        if sp.lit(k - 1) {
            let idx = sp.index(k - 1);
            (d.update(idx, !d[idx]), c || d[idx])
        } else {
            (d, c)
        }
    }
}

/// The display and the collision flag after drawing an `n`-row sprite.
pub open spec fn draw_sprite_spec(
    display: Seq<bool>,
    sp: Sprite,
    n: nat,
) -> (Seq<bool>, bool) {
    draw_pixels(display, sp, n * 8)
}

/// Every pixel index lies on the screen.
pub proof fn lemma_pixel_index_bounds(xs: int, ys: int, k: int)
    requires
        0 <= k,
    ensures
        0 <= pixel_index(xs, ys, k) < DISPLAY_SIZE,
{
    let r = (ys + k / 8) % 32;
    let c = (xs + k % 8) % 64;
    assert(0 <= r < 32);
    assert(0 <= c < 64);
    assert(0 <= r * 64 + c < 2048) by (nonlinear_arith)
        requires
            0 <= r < 32,
            0 <= c < 64,
    ;
}

/// Drawing keeps the size of the display.
pub proof fn lemma_draw_pixels_len(
    display: Seq<bool>,
    sp: Sprite,
    k: nat,
)
    requires
        display.len() == DISPLAY_SIZE,
    ensures
        draw_pixels(display, sp, k).0.len() == display.len(),
    decreases k,
{
    if k > 0 {
        lemma_draw_pixels_len(display, sp, (k - 1) as nat);
        lemma_pixel_index_bounds(sp.xs, sp.ys, k - 1);
    }
}

/// Whether display index `j` is toggled an odd number of times by the first
/// `k` pixels of the sprite.
pub open spec fn toggled(sp: Sprite, k: nat, j: int) -> bool
    decreases k,
{
    if k == 0 {
        false
    } else {
        let t = toggled(sp, (k - 1) as nat, j);
        if sp.lit(k - 1) && sp.index(k - 1) == j {
            !t
        } else {
            t
        }
    }
}

/// Drawing XORs each display pixel with the parity of the sprite pixels
/// that land on it; the result does not depend on the display's contents.
pub proof fn lemma_draw_is_xor(
    display: Seq<bool>,
    sp: Sprite,
    k: nat,
)
    requires
        display.len() == DISPLAY_SIZE,
    ensures
        draw_pixels(display, sp, k).0.len() == DISPLAY_SIZE,
        forall|j: int|
            0 <= j < DISPLAY_SIZE ==> #[trigger] draw_pixels(display, sp, k).0[j]
                == (display[j] != toggled(sp, k, j)),
    decreases k,
{
    lemma_draw_pixels_len(display, sp, k);
    if k > 0 {
        lemma_draw_is_xor(display, sp, (k - 1) as nat);
        lemma_pixel_index_bounds(sp.xs, sp.ys, k - 1);
    }
}

/// For a sprite placed on the screen, the display index of sprite pixel
/// `k0` (of the first 256) is toggled by the first `k` pixels exactly when
/// `k0` is among them and drawn: no other pixel lands there.
pub proof fn lemma_toggled_single(sp: Sprite, k: nat, k0: int)
    requires
        0 <= sp.xs < DISPLAY_WIDTH,
        0 <= sp.ys < DISPLAY_HEIGHT,
        k <= 256,
        0 <= k0 < 256,
    ensures
        toggled(sp, k, sp.index(k0)) == (k0 < k && sp.lit(k0)),
    decreases k,
{
    if k > 0 {
        lemma_toggled_single(sp, (k - 1) as nat, k0);
        if k - 1 < k0 {
            lemma_pixel_index_injective(sp.xs, sp.ys, k - 1, k0);
        } else if k - 1 > k0 {
            lemma_pixel_index_injective(sp.xs, sp.ys, k0, k - 1);
        }
    }
}

/// Whether one of the first `k` sprite pixels is drawn and lands on display
/// index `j`.
pub open spec fn hits(sp: Sprite, k: nat, j: int) -> bool {
    exists|k1: int|
        0 <= k1 < k && #[trigger] sp.lit(k1) && sp.index(k1) == j
}

/// Whether two different drawn pixels among the first `k` land on the same
/// display index.
pub open spec fn overlaps(sp: Sprite, k: nat) -> bool {
    exists|k1: int, k2: int|
        0 <= k1 < k2 < k && #[trigger] sp.lit(k1) && #[trigger] sp.lit(k2) && sp.index(k1) == sp.index(k2)
}

/// Whether one of the first `k` sprite pixels is drawn.
pub open spec fn any_pixel(sp: Sprite, k: nat) -> bool {
    exists|k1: int| 0 <= k1 < k && #[trigger] sp.lit(k1)
}

/// The blank display.
pub open spec fn blank() -> Seq<bool> {
    Seq::new(DISPLAY_SIZE as nat, |j: int| false)
}

/// Two positions `a <= b` less than `m` apart that agree modulo `m` are equal.
proof fn lemma_mod_close(base: int, a: int, b: int, m: int)
    requires
        0 <= base,
        0 <= a <= b < a + m,
        0 < m,
        (base + a) % m == (base + b) % m,
    ensures
        a == b,
{
    let p = base + a;
    let q = base + b;
    assert(p == m * (p / m) + p % m) by (nonlinear_arith)
        requires
            0 < m,
    ;
    assert(q == m * (q / m) + q % m) by (nonlinear_arith)
        requires
            0 < m,
    ;
    assert(0 <= p % m < m && 0 <= q % m < m);
    let d = q / m - p / m;
    assert(q - p == m * d) by (nonlinear_arith)
        requires
            p == m * (p / m) + p % m,
            q == m * (q / m) + q % m,
            p % m == q % m,
            d == q / m - p / m,
    ;
    assert(d == 0) by (nonlinear_arith)
        requires
            q - p == m * d,
            0 <= q - p < m,
            0 < m,
    ;
}

/// The pixels of a sprite of at most 32 rows land on pairwise different
/// display positions.
pub proof fn lemma_pixel_index_injective(xs: int, ys: int, k1: int, k2: int)
    requires
        0 <= xs < DISPLAY_WIDTH,
        0 <= ys < DISPLAY_HEIGHT,
        0 <= k1 < k2 < 256,
    ensures
        pixel_index(xs, ys, k1) != pixel_index(xs, ys, k2),
{
    let r1 = (ys + k1 / 8) % 32;
    let r2 = (ys + k2 / 8) % 32;
    let c1 = (xs + k1 % 8) % 64;
    let c2 = (xs + k2 % 8) % 64;
    if pixel_index(xs, ys, k1) == pixel_index(xs, ys, k2) {
        assert(0 <= c1 < 64 && 0 <= c2 < 64);
        assert(r1 == r2 && c1 == c2) by (nonlinear_arith)
            requires
                r1 * 64 + c1 == r2 * 64 + c2,
                0 <= c1 < 64,
                0 <= c2 < 64,
        ;
        assert(k1 / 8 <= k2 / 8 < 32);
        lemma_mod_close(ys, k1 / 8, k2 / 8, 32);
        if k1 % 8 <= k2 % 8 {
            lemma_mod_close(xs, k1 % 8, k2 % 8, 64);
        } else {
            lemma_mod_close(xs, k2 % 8, k1 % 8, 64);
        }
        assert(k1 == 8 * (k1 / 8) + k1 % 8);
        assert(k2 == 8 * (k2 / 8) + k2 % 8);
    }
}

/// A position toggled by the first `k` pixels is hit by one of them.
pub proof fn lemma_toggled_hits(sp: Sprite, k: nat, j: int)
    requires
        toggled(sp, k, j),
    ensures
        hits(sp, k, j),
    decreases k,
{
    if k > 0 {
        if sp.lit(k - 1) && sp.index(k - 1) == j {
        } else {
            lemma_toggled_hits(sp, (k - 1) as nat, j);
            let k1 = choose|k1: int|
                0 <= k1 < k - 1 && #[trigger] sp.lit(k1) && sp.index(k1) == j;
            assert(0 <= k1 < k && sp.lit(k1) && sp.index(k1) == j);
        }
    }
}

/// Drawing onto the blank display reports a collision exactly when two set
/// pixels of the sprite land on the same position; without such a pair,
/// the lit pixels are exactly those hit by the sprite.
pub proof fn lemma_draw_blank(sp: Sprite, k: nat)
    ensures
        draw_pixels(blank(), sp, k).1 == overlaps(sp, k),
        draw_pixels(blank(), sp, k).0.len() == DISPLAY_SIZE,
        !overlaps(sp, k) ==> forall|j: int|
            0 <= j < DISPLAY_SIZE ==> #[trigger] draw_pixels(blank(), sp, k).0[j]
                == hits(sp, k, j),
    decreases k,
{
    lemma_draw_pixels_len(blank(), sp, k);
    if k > 0 {
        let km = (k - 1) as nat;
        lemma_draw_blank(sp, km);
        let (d, c) = draw_pixels(blank(), sp, km);
        let last = k - 1;
        if overlaps(sp, km) {
            let (k1, k2) = choose|k1: int, k2: int|
                0 <= k1 < k2 < km && #[trigger] sp.lit(k1)
                    && #[trigger] sp.lit(k2) && sp.index(k1)
                    == sp.index(k2);
            assert(0 <= k1 < k2 < k && sp.lit(k1) && sp.lit(k2)
                && sp.index(k1) == sp.index(k2));
        } else if sp.lit(last) {
            let idx = sp.index(last);
            lemma_pixel_index_bounds(sp.xs, sp.ys, last);
            assert(d[idx] == hits(sp, km, idx));
            if hits(sp, km, idx) {
                let k1 = choose|k1: int|
                    0 <= k1 < km && #[trigger] sp.lit(k1) && sp.index(k1) == idx;
                assert(0 <= k1 < last < k && sp.lit(k1) && sp.lit(last) && sp.index(k1) == sp.index(last));
            } else {
                assert forall|k1: int, k2: int|
                    0 <= k1 < k2 < k && #[trigger] sp.lit(k1)
                        && #[trigger] sp.lit(k2) implies sp.index(k1)
                    != sp.index(k2) by {
                    if k2 == last && sp.index(k1) == sp.index(k2) {
                        assert(hits(sp, km, idx));
                    }
                }
                let d2 = draw_pixels(blank(), sp, k).0;
                assert forall|j: int| 0 <= j < DISPLAY_SIZE implies #[trigger] d2[j] == hits(
                    sp,
                    k,
                    j,
                ) by {
                    if j == idx {
                        assert(sp.lit(last));
                    } else {
                        if hits(sp, k, j) {
                            let k1 = choose|k1: int|
                                0 <= k1 < k && #[trigger] sp.lit(k1)
                                    && sp.index(k1) == j;
                            assert(0 <= k1 < km);
                        }
                    }
                }
            }
        } else {
            assert forall|k1: int, k2: int|
                0 <= k1 < k2 < k && #[trigger] sp.lit(k1)
                    && #[trigger] sp.lit(k2) implies sp.index(k1)
                != sp.index(k2) by {
                if k2 < km {
                } else {
                    assert(k2 == last);
                }
            }
            let d2 = draw_pixels(blank(), sp, k).0;
            assert forall|j: int| 0 <= j < DISPLAY_SIZE implies #[trigger] d2[j] == hits(
                sp,
                k,
                j,
            ) by {
                if hits(sp, k, j) {
                    let k1 = choose|k1: int|
                        0 <= k1 < k && #[trigger] sp.lit(k1) && sp.index(k1) == j;
                    assert(k1 != last);
                    assert(0 <= k1 < km);
                }
            }
        }
    }
}

/// A sprite of at most 32 rows has no two set pixels on the same position.
pub proof fn lemma_no_overlap(sp: Sprite, k: nat)
    requires
        0 <= sp.xs < DISPLAY_WIDTH,
        0 <= sp.ys < DISPLAY_HEIGHT,
        k <= 256,
    ensures
        !overlaps(sp, k),
{
    assert forall|k1: int, k2: int|
        0 <= k1 < k2 < k && #[trigger] sp.lit(k1) && #[trigger] sp.lit(k2) implies sp.index(k1) != sp.index(k2) by {
        lemma_pixel_index_injective(sp.xs, sp.ys, k1, k2);
    }
}

/// Redrawing a sprite of at most 32 rows over the image it left on the
/// blank display: after `k` pixels, a collision has been seen exactly when
/// one of those `k` pixels is set.
pub proof fn lemma_redraw_collision(sp: Sprite, total: nat, k: nat)
    requires
        0 <= sp.xs < DISPLAY_WIDTH,
        0 <= sp.ys < DISPLAY_HEIGHT,
        total <= 256,
        k <= total,
    ensures
        draw_pixels(draw_pixels(blank(), sp, total).0, sp, k).1
            == any_pixel(sp, k),
    decreases k,
{
    let d = draw_pixels(blank(), sp, total).0;
    lemma_no_overlap(sp, total);
    lemma_draw_blank(sp, total);
    if k > 0 {
        let km = (k - 1) as nat;
        let last = k - 1;
        lemma_redraw_collision(sp, total, km);
        lemma_draw_is_xor(d, sp, km);
        if sp.lit(last) {
            let idx = sp.index(last);
            lemma_pixel_index_bounds(sp.xs, sp.ys, last);
            if toggled(sp, km, idx) {
                lemma_toggled_hits(sp, km, idx);
                let k1 = choose|k1: int|
                    0 <= k1 < km && #[trigger] sp.lit(k1) && sp.index(k1) == idx;
                lemma_pixel_index_injective(sp.xs, sp.ys, k1, last);
            }
            assert(hits(sp, total, idx));
            assert(d[idx]);
            assert(any_pixel(sp, k));
        } else {
            if any_pixel(sp, k) {
                let k1 = choose|k1: int| 0 <= k1 < k && #[trigger] sp.lit(k1);
                assert(k1 != last);
                assert(any_pixel(sp, km));
            }
        }
    }
}

/// Whether a drawn pixel among the first `k` lands on a position that is lit
/// in `display`.
pub open spec fn hits_lit(display: Seq<bool>, sp: Sprite, k: nat) -> bool {
    exists|k1: int| 0 <= k1 < k && #[trigger] sp.lit(k1) && display[sp.index(k1)]
}

/// When no two drawn pixels share a position, drawing reports a collision
/// exactly when a drawn pixel lands on a pixel that was lit beforehand.
pub proof fn lemma_collision_without_overlap(display: Seq<bool>, sp: Sprite, k: nat)
    requires
        display.len() == DISPLAY_SIZE,
        !overlaps(sp, k),
    ensures
        draw_pixels(display, sp, k).1 == hits_lit(display, sp, k),
    decreases k,
{
    if k > 0 {
        let km = (k - 1) as nat;
        let last = k - 1;
        assert(!overlaps(sp, km)) by {
            if overlaps(sp, km) {
                let (k1, k2) = choose|k1: int, k2: int|
                    0 <= k1 < k2 < km && #[trigger] sp.lit(k1) && #[trigger] sp.lit(k2)
                        && sp.index(k1) == sp.index(k2);
                assert(0 <= k1 < k2 < k && sp.lit(k1) && sp.lit(k2) && sp.index(k1) == sp.index(
                    k2,
                ));
            }
        }
        lemma_collision_without_overlap(display, sp, km);
        lemma_draw_is_xor(display, sp, km);
        if sp.lit(last) {
            let idx = sp.index(last);
            lemma_pixel_index_bounds(sp.xs, sp.ys, last);
            if toggled(sp, km, idx) {
                lemma_toggled_hits(sp, km, idx);
                let k1 = choose|k1: int| 0 <= k1 < km && #[trigger] sp.lit(k1) && sp.index(k1) == idx;
                assert(0 <= k1 < last < k && sp.lit(k1) && sp.lit(last) && sp.index(k1) == sp.index(
                    last,
                ));
            }
            if display[idx] {
                assert(hits_lit(display, sp, k));
            }
            if hits_lit(display, sp, k) && !display[idx] {
                let k1 = choose|k1: int| 0 <= k1 < k && #[trigger] sp.lit(k1) && display[sp.index(k1)];
                assert(k1 != last);
                assert(hits_lit(display, sp, km));
            }
            if hits_lit(display, sp, km) {
                let k1 = choose|k1: int| 0 <= k1 < km && #[trigger] sp.lit(k1) && display[sp.index(k1)];
                assert(0 <= k1 < k);
            }
        } else {
            if hits_lit(display, sp, k) {
                let k1 = choose|k1: int| 0 <= k1 < k && #[trigger] sp.lit(k1) && display[sp.index(k1)];
                assert(k1 != last);
                assert(hits_lit(display, sp, km));
            }
            if hits_lit(display, sp, km) {
                let k1 = choose|k1: int| 0 <= k1 < km && #[trigger] sp.lit(k1) && display[sp.index(k1)];
                assert(0 <= k1 < k);
            }
        }
    }
}

} // verus!
