use vstd::prelude::*;

use crate::num::{div_trunc, lemma_tdiv_bound, tdiv};

verus! {

/// An elementary drawable unit: one character cell with an optional
/// foreground and background color (values of the 256-color palette),
/// a depth used to resolve overlap, and an italic flag.
///
/// Identity (`==`) compares the character, depth, italic flag and
/// foreground color; the background color is not part of identity.
#[derive(Debug)]
pub struct Draw {
    pub item: char,
    pub fg_color: Option<u8>,
    pub bg_color: Option<u8>,
    pub z_idx: i32,
    pub italic: bool,
}

impl Clone for Draw {
    fn clone(&self) -> (r: Self)
        ensures
            r == *self,
    {
        Draw {
            item: self.item,
            fg_color: self.fg_color,
            bg_color: self.bg_color,
            z_idx: self.z_idx,
            italic: self.italic,
        }
    }
}

/// Whether two tiles are the same drawable: equal character, depth,
/// italic flag and foreground color. The background color is ignored.
pub open spec fn draw_like(a: Draw, b: Draw) -> bool {
    a.item == b.item && a.z_idx == b.z_idx && a.italic == b.italic && a.fg_color == b.fg_color
}

impl PartialEq for Draw {
    fn eq(&self, other: &Self) -> (r: bool)
        ensures
            r == draw_like(*self, *other),
    {
        self.item == other.item && self.z_idx == other.z_idx && self.italic == other.italic
            && match (self.fg_color, other.fg_color) {
            (Some(c1), Some(c2)) => c1 == c2,
            (None, None) => true,
            _ => false,
        }
    }
}

impl vstd::std_specs::cmp::PartialEqSpecImpl for Draw {
    open spec fn obeys_eq_spec() -> bool {
        true
    }

    open spec fn eq_spec(&self, other: &Draw) -> bool {
        draw_like(*self, *other)
    }
}

impl Eq for Draw {}

impl Draw {
    /// A plain tile: the given character, no colors, depth zero, upright.
    pub fn new(item: char) -> (r: Self)
        ensures
            r == (Draw { item, fg_color: None, bg_color: None, z_idx: 0, italic: false }),
    {
        Draw { item, fg_color: None, bg_color: None, z_idx: 0, italic: false }
    }

    pub fn item(&self) -> (r: char)
        ensures
            r == self.item,
    {
        self.item
    }

    /// The same tile with foreground color `color`.
    pub fn with_fg(self, color: u8) -> (r: Self)
        ensures
            r == (Draw { fg_color: Some(color), ..self }),
    {
        Draw { fg_color: Some(color), ..self }
    }

    /// The same tile with background color `color`.
    pub fn with_bg(self, color: u8) -> (r: Self)
        ensures
            r == (Draw { bg_color: Some(color), ..self }),
    {
        Draw { bg_color: Some(color), ..self }
    }

    /// The same tile at depth `z_idx`.
    pub fn with_z(self, z_idx: i32) -> (r: Self)
        ensures
            r == (Draw { z_idx, ..self }),
    {
        Draw { z_idx, ..self }
    }

    pub fn z_idx(&self) -> (r: i32)
        ensures
            r == self.z_idx,
    {
        self.z_idx
    }

    /// The same tile in italics.
    pub fn with_italic(self) -> (r: Self)
        ensures
            r == (Draw { italic: true, ..self }),
    {
        Draw { italic: true, ..self }
    }
}

/// The value of the 216-color cube entry for `r`, `g`, `b` (each at most
/// five), laid out as in the 256-color palette.
pub fn ansi_rgb(r: u8, g: u8, b: u8) -> (v: u8)
    requires
        r <= 5,
        g <= 5,
        b <= 5,
    ensures
        v == 16 + 36 * r + 6 * g + b,
{
    16 + 36 * r + 6 * g + b
}

/// The value of the grayscale ramp entry for `shade` (at most 23), laid
/// out as in the 256-color palette.
pub fn ansi_grayscale(shade: u8) -> (v: u8)
    requires
        shade < 24,
    ensures
        v == 232 + shade,
{
    232 + shade
}

/// A radial push outward from a position, started at a point in time.
pub struct Radiate {
    pub t: usize,
    pub pos: (i32, i32),
}

/// The integer square root: the largest `s` with `s * s <= n`.
pub open spec fn sqrt_floor(n: int) -> int
    decreases n,
{
    if n < 1 {
        0
    } else {
        let s = sqrt_floor(n - 1);
        if (s + 1) * (s + 1) <= n {
            s + 1
        } else {
            s
        }
    }
}

/// `sqrt_floor(n)` is the unique nonnegative root bracket.
pub proof fn lemma_sqrt_floor_bracket(n: int)
    requires
        n >= 0,
    ensures
        sqrt_floor(n) >= 0,
        sqrt_floor(n) * sqrt_floor(n) <= n,
        n < (sqrt_floor(n) + 1) * (sqrt_floor(n) + 1),
    decreases n,
{
    if n >= 1 {
        lemma_sqrt_floor_bracket(n - 1);
        let s = sqrt_floor(n - 1);
        if (s + 1) * (s + 1) <= n {
            assert(n < ((s + 1) + 1) * ((s + 1) + 1)) by (nonlinear_arith)
                requires
                    s >= 0,
                    n - 1 < (s + 1) * (s + 1),
            ;
        }
    }
}

/// Any value satisfying the root bracket is `sqrt_floor`.
pub proof fn lemma_sqrt_floor_unique(n: int, r: int)
    requires
        n >= 0,
        r >= 0,
        r * r <= n,
        n < (r + 1) * (r + 1),
    ensures
        r == sqrt_floor(n),
{
    lemma_sqrt_floor_bracket(n);
    let s = sqrt_floor(n);
    assert(r == s) by (nonlinear_arith)
        requires
            r >= 0,
            s >= 0,
            r * r <= n,
            n < (r + 1) * (r + 1),
            s * s <= n,
            n < (s + 1) * (s + 1),
    ;
}

/// The integer square root of a small value.
fn isqrt(d: i64) -> (r: i64)
    requires
        0 <= d <= 100_000_000,
    ensures
        r == sqrt_floor(d as int),
        0 <= r <= d,
        r * r <= d < (r + 1) * (r + 1),
{
    let mut k: i64 = 0;
    loop
        invariant
            0 <= k <= d <= 100_000_000,
            k * k <= d,
        ensures
            0 <= k <= d,
            k * k <= d < (k + 1) * (k + 1),
        decreases d - k,
    {
        proof {
            assert((k + 1) * (k + 1) <= 20_000_000_000_000_000) by (nonlinear_arith)
                requires
                    0 <= k <= 100_000_000,
            ;
        }
        let next_sq = (k + 1) * (k + 1);
        if next_sq > d {
            break ;
        }
        proof {
            assert(k + 1 <= d) by (nonlinear_arith)
                requires
                    (k + 1) * (k + 1) <= d,
                    k >= 0,
            ;
        }
        k = k + 1;
    }
    proof {
        lemma_sqrt_floor_unique(d as int, k as int);
    }
    k
}

/// Where a point stands while a radial push is active: the result of
/// pushing `pos` away from the push's origin to distance `dt` (the
/// push's age, capped at fifty), if the point lies strictly inside that
/// radius; a point on the origin itself does not move off it, and a
/// point at or beyond the radius is unaffected, as is everything when
/// no push is active.
pub open spec fn move_per_radiate_spec(radiate: Option<Radiate>, t: usize, pos: (i32, i32)) -> (
    i32,
    i32,
) {
    match radiate {
        Option::Some(rad) => {
            let dt = vstd::math::min(t - rad.t, 50);
            let dx = pos.0 - rad.pos.0;
            let dy = pos.1 - rad.pos.1;
            let d = dx * dx + dy * dy;
            if d < dt * dt {
                if d == 0 {
                    rad.pos
                } else {
                    let s = sqrt_floor(d);
                    (
                        (rad.pos.0 + tdiv(dx * dt, s)) as i32,
                        (rad.pos.1 + tdiv(dy * dt, s)) as i32,
                    )
                }
            } else {
                pos
            }
        },
        Option::None => pos,
    }
}

/// Where `pos` stands under the radial push `radiate` at time `t`.
pub fn move_per_radiate(radiate: &Option<Radiate>, t: usize, pos: (i32, i32)) -> (r: (i32, i32))
    requires
        -10_000_000 <= pos.0 <= 10_000_000,
        -10_000_000 <= pos.1 <= 10_000_000,
        match *radiate {
            Option::Some(rad) => rad.t <= t && -1_000_000 <= rad.pos.0 <= 1_000_000 && -1_000_000
                <= rad.pos.1 <= 1_000_000,
            Option::None => true,
        },
    ensures
        r == move_per_radiate_spec(*radiate, t, pos),
{
    match radiate {
        Option::Some(rad) => {
            let dt_raw = t - rad.t;
            let dt: i64 = if dt_raw >= 50 {
                50
            } else {
                dt_raw as i64
            };
            let dx = pos.0 as i64 - rad.pos.0 as i64;
            let dy = pos.1 as i64 - rad.pos.1 as i64;
            proof {
                assert(0 <= dx * dx <= 150_000_000_000_000 && 0 <= dy * dy
                    <= 150_000_000_000_000) by (nonlinear_arith)
                    requires
                        -11_000_000 <= dx <= 11_000_000,
                        -11_000_000 <= dy <= 11_000_000,
                ;
            }
            let d = dx * dx + dy * dy;
            proof {
                assert(0 <= dt * dt <= 2500) by (nonlinear_arith)
                    requires
                        0 <= dt <= 50,
                ;
            }
            if d < dt * dt {
                if d == 0 {
                    rad.pos
                } else {
                    let s = isqrt(d);
                    proof {
                        assert(s >= 1) by (nonlinear_arith)
                            requires
                                1 <= d,
                                s >= 0,
                                d < (s + 1) * (s + 1),
                        ;
                        assert(-50 < dx < 50 && -50 < dy < 50) by (nonlinear_arith)
                            requires
                                d < dt * dt,
                                0 <= dt <= 50,
                                d == dx * dx + dy * dy,
                        ;
                        assert(-2500 * s <= dx * dt <= 2500 * s && -2500 * s <= dy * dt <= 2500
                            * s) by (nonlinear_arith)
                            requires
                                -50 < dx < 50,
                                -50 < dy < 50,
                                0 <= dt <= 50,
                                1 <= s,
                        ;
                        lemma_tdiv_bound(dx * dt, s as int, 2500);
                        lemma_tdiv_bound(dy * dt, s as int, 2500);
                    }
                    let qx = div_trunc(dx * dt, s as u64);
                    let qy = div_trunc(dy * dt, s as u64);
                    ((rad.pos.0 + qx as i32), (rad.pos.1 + qy as i32))
                }
            } else {
                pos
            }
        },
        Option::None => pos,
    }
}

/// The tick count an arc from `origin` to `target` takes: a tenth of
/// three times the horizontal plus four times the vertical distance,
/// rounded up, plus two.
pub open spec fn explosion_target_dt_spec(target: (i32, i32), origin: (i32, i32)) -> int {
    (3 * (vstd::math::abs(target.0 - origin.0) as int) + 4 * (vstd::math::abs(target.1 - origin.1)
        as int) + 9) / 10 + 2
}

/// How many ticks the debris arc from `origin` to `target` takes.
pub fn explosion_target_dt(target: (i32, i32), origin: (i32, i32)) -> (r: usize)
    ensures
        r == explosion_target_dt_spec(target, origin),
{
    let dx = target.0 as i64 - origin.0 as i64;
    let dy = target.1 as i64 - origin.1 as i64;
    let adx = if dx < 0 {
        -dx
    } else {
        dx
    };
    let ady = if dy < 0 {
        -dy
    } else {
        dy
    };
    let sum = 3 * adx + 4 * ady + 9;
    (((sum as u64) / 10) + 2) as usize
}

/// Where a piece of flung debris stands `dt` ticks into its arc from
/// `origin` to `target`. The arc lasts `n / 10` ticks where
/// `n = 3*|dx| + 4*|dy| + 20`; at or past that the debris sits on the
/// target. Before that, it moves horizontally at constant speed and
/// vertically along a parabola under a gravity of a tenth of a cell per
/// tick squared, both rounded toward zero.
pub open spec fn explosion_path_spec(dt: usize, target: (i32, i32), origin: (i32, i32)) -> (
    i32,
    i32,
) {
    let dx = target.0 - origin.0;
    let dy = target.1 - origin.1;
    let n = 3 * (vstd::math::abs(dx) as int) + 4 * (vstd::math::abs(dy) as int) + 20;
    if 10 * dt >= n {
        target
    } else {
        (
            (origin.0 + tdiv(10 * dx * dt, n)) as i32,
            (origin.1 + tdiv(2000 * dy * dt - n * n * dt + 10 * n * dt * dt, 200 * n)) as i32,
        )
    }
}

/// The debris position `dt` ticks after being flung from `origin`
/// toward `target`.
pub fn explosion_path(dt: usize, target: (i32, i32), origin: (i32, i32)) -> (r: (i32, i32))
    requires
        -10_000 <= target.0 - origin.0 <= 10_000,
        -10_000 <= target.1 - origin.1 <= 10_000,
        -1_000_000 <= origin.0 <= 1_000_000,
        -1_000_000 <= origin.1 <= 1_000_000,
    ensures
        r == explosion_path_spec(dt, target, origin),
        -1_010_000 <= r.0 <= 1_010_000,
        -3_500_000 <= r.1 <= 3_500_000,
{
    let dxl = target.0 as i64 - origin.0 as i64;
    let dyl = target.1 as i64 - origin.1 as i64;
    let adx = if dxl < 0 {
        -dxl
    } else {
        dxl
    };
    let ady = if dyl < 0 {
        -dyl
    } else {
        dyl
    };
    let n = 3 * adx + 4 * ady + 20;
    if dt >= 7002 {
        return target;
    }
    let dti = dt as i64;
    if 10 * dti >= n {
        return target;
    }
    proof {
        assert(-(adx * n) <= 10 * dxl * dti && 10 * dxl * dti <= adx * n && adx * n
            <= 700_200_000) by (nonlinear_arith)
            requires
                -adx <= dxl <= adx,
                0 <= dti,
                10 * dti <= n,
                0 <= adx <= 10_000,
                n <= 70020,
        ;
        lemma_tdiv_bound(10 * dxl * dti, n as int, adx as int);
        assert(n * n <= 4_902_800_400 && 10 * n * dti <= 4_902_800_400) by (nonlinear_arith)
            requires
                20 <= n <= 70020,
                0 <= dti,
                10 * dti <= n,
        ;
    }
    let qx = div_trunc(10 * dxl * dti, n as u64);
    let f = 2000 * dyl - n * n + 10 * n * dti;
    proof {
        assert(-(2000 * ady + n * n) <= f && f <= 2000 * ady + n * n) by (nonlinear_arith)
            requires
                f == 2000 * dyl - n * n + 10 * n * dti,
                -ady <= dyl <= ady,
                0 <= ady,
                0 <= dti,
                10 * dti <= n,
                20 <= n,
        ;
        assert(-35_000_000_000_000 <= f * dti && f * dti <= 35_000_000_000_000) by (nonlinear_arith)
            requires
                -4_922_800_400 <= f <= 4_922_800_400,
                0 <= dti <= 7001,
        ;
        assert(-((ady + 2451401) * (200 * n)) <= f * dti && f * dti <= (ady + 2451401) * (200
            * n)) by (nonlinear_arith)
            requires
                0 <= dti,
                10 * dti <= n,
                20 <= n <= 70020,
                0 <= ady <= 10_000,
                -(2000 * ady + n * n) <= f <= 2000 * ady + n * n,
        ;
        lemma_tdiv_bound(f * dti, 200 * n as int, ady + 2451401);
        assert(f * dti == 2000 * dyl * dti - n * n * dti + 10 * n * dti * dti) by (nonlinear_arith)
            requires
                f == 2000 * dyl - n * n + 10 * n * dti,
        ;
    }
    let qy = div_trunc(f * dti, (200 * n) as u64);
    ((origin.0 + qx as i32), (origin.1 + qy as i32))
}

} // verus!
