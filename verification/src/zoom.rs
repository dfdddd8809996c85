use vstd::prelude::*;

use crate::util::Draw;

verus! {

/// Depth of the zoom mask: above everything else in the scene.
pub const ZOOM_Z_IDX: i32 = 1000;

/// Starting radius of the iris: the mask opens from far outside the
/// screen and shrinks one cell per tick toward the target radius.
pub const INIT_RADIUS: i32 = 150;

/// One circular cut-out of the zoom mask: either off, or an iris around
/// `pos` begun at tick `t` with target radius `radius`.
pub enum Cutout {
    Disabled,
    Zoom { t: usize, pos: (i32, i32), radius: u32 },
}

/// A full-screen mask that blanks everything outside one or two
/// ellipses, used to iris in on a point of the scene; it can also fade
/// out entirely.
pub struct Zoom {
    pub t: usize,
    pub width: u32,
    pub height: u32,
    pub state: Cutout,
    pub state2: Cutout,
    pub disappear: Option<usize>,
}

/// The mask's fade factor numerator (out of fifty): fifty while no
/// fade-out is running, dropping to zero over fifty ticks after one
/// starts.
pub open spec fn fade_num(z: Zoom) -> int {
    match z.disappear {
        Option::Some(t0) => if z.t - t0 >= 50 {
            0
        } else {
            50 - (z.t - t0)
        },
        Option::None => 50,
    }
}

/// Radius of the first cut-out at the mask's current tick.
pub open spec fn cut_radius(z: Zoom) -> int {
    match z.state {
        Cutout::Zoom { t, pos, radius } => vstd::math::max(INIT_RADIUS - (z.t - t), radius as int),
        Cutout::Disabled => 0,
    }
}

/// Center of the second cut-out, or a point outside the screen.
pub open spec fn cut2_pos(z: Zoom) -> (i32, i32) {
    match z.state2 {
        Cutout::Zoom { t, pos, radius } => pos,
        Cutout::Disabled => (-1i32, -1i32),
    }
}

/// Radius of the second cut-out: it grows one cell per tick up to its
/// target.
pub open spec fn cut2_radius(z: Zoom) -> int {
    match z.state2 {
        Cutout::Zoom { t, pos, radius } => vstd::math::min(z.t - t, radius as int),
        Cutout::Disabled => 0,
    }
}

/// Whether the cell `(x, y)` lies outside the ellipse of radius `r`
/// around `p`, under the fade factor `num / 50`. Cells are about twice
/// as tall as wide, so the vertical distance is scaled by eleven
/// fifths; all comparisons are exact over integers, the inequality
/// multiplied out by the common denominator.
pub open spec fn outside_cut(x: int, y: int, p: (i32, i32), r: int, num: int) -> bool {
    1250 * ((x - p.0) * (x - p.0)) + 6050 * ((y - p.1) * (y - p.1)) > 25 * ((r * r) * num)
}

/// Whether the mask blanks cell `(x, y)`: it lies outside both
/// cut-outs, or the fade-out has completed.
pub open spec fn zoom_blank_at(z: Zoom, x: int, y: int) -> bool {
    match z.state {
        Cutout::Zoom { t, pos, radius } => (outside_cut(x, y, pos, cut_radius(z), fade_num(z))
            && outside_cut(x, y, cut2_pos(z), cut2_radius(z), fade_num(z))) || fade_num(z) == 0,
        Cutout::Disabled => false,
    }
}

/// The blanking tiles of the first `n` cells (row-major): a space at
/// the top depth wherever the mask blanks; nothing anywhere else, and
/// nothing at all while the mask is off.
pub open spec fn zoom_tiles_upto(z: Zoom, n: int) -> Seq<(Draw, (i32, i32))>
    decreases n,
{
    if n <= 0 || !(z.state is Zoom) {
        Seq::empty()
    } else {
        zoom_tiles_upto(z, n - 1) + (if zoom_blank_at(z, (n - 1) % (z.width as int), (n - 1) / (
            z.width as int
        )) {
            seq![
                (
                    Draw {
                        item: ' ',
                        fg_color: Option::None,
                        bg_color: Option::None,
                        z_idx: ZOOM_Z_IDX,
                        italic: false,
                    },
                    (((n - 1) % (z.width as int)) as i32, ((n - 1) / (z.width as int)) as i32),
                ),
            ]
        } else {
            Seq::empty()
        })
    }
}

impl Zoom {
    /// Well-formedness: machine-safe dimensions, radii and positions,
    /// and no timestamp from the future.
    pub open spec fn wf(self) -> bool {
        &&& 1 <= self.width <= 10_000
        &&& 1 <= self.height <= 10_000
        &&& match self.state {
            Cutout::Zoom { t, pos, radius } => t <= self.t && radius <= 1_000_000 && -1_000_000
                <= pos.0 <= 1_000_000 && -1_000_000 <= pos.1 <= 1_000_000,
            Cutout::Disabled => true,
        }
        &&& match self.state2 {
            Cutout::Zoom { t, pos, radius } => t <= self.t && radius <= 1_000_000 && -1_000_000
                <= pos.0 <= 1_000_000 && -1_000_000 <= pos.1 <= 1_000_000,
            Cutout::Disabled => true,
        }
        &&& match self.disappear {
            Option::Some(t0) => t0 <= self.t,
            Option::None => true,
        }
    }

    /// A mask that is off.
    pub fn new(width: u32, height: u32) -> (r: Self)
        requires
            1 <= width <= 10_000,
            1 <= height <= 10_000,
        ensures
            r.wf(),
            r == (Zoom {
                t: 0usize,
                width,
                height,
                state: Cutout::Disabled,
                state2: Cutout::Disabled,
                disappear: Option::<usize>::None,
            }),
    {
        Zoom {
            t: 0,
            width,
            height,
            state: Cutout::Disabled,
            state2: Cutout::Disabled,
            disappear: Option::None,
        }
    }

    /// Open the first iris around `pos`, shrinking to `radius`.
    pub fn zoom(&mut self, pos: (i32, i32), radius: u32)
        requires
            old(self).wf(),
            -1_000_000 <= pos.0 <= 1_000_000,
            -1_000_000 <= pos.1 <= 1_000_000,
            radius <= 1_000_000,
        ensures
            final(self).wf(),
            *final(self) == (Zoom {
                state: Cutout::Zoom { t: old(self).t, pos, radius },
                ..*old(self)
            }),
    {
        self.state = Cutout::Zoom { t: self.t, pos, radius };
    }

    /// Open the second iris around `pos`, growing to `radius`.
    pub fn zoom2(&mut self, pos: (i32, i32), radius: u32)
        requires
            old(self).wf(),
            -1_000_000 <= pos.0 <= 1_000_000,
            -1_000_000 <= pos.1 <= 1_000_000,
            radius <= 1_000_000,
        ensures
            final(self).wf(),
            *final(self) == (Zoom {
                state2: Cutout::Zoom { t: old(self).t, pos, radius },
                ..*old(self)
            }),
    {
        self.state2 = Cutout::Zoom { t: self.t, pos, radius };
    }

    /// Begin fading the whole mask out.
    pub fn disappear(&mut self)
        requires
            old(self).wf(),
        ensures
            final(self).wf(),
            *final(self) == (Zoom { disappear: Option::Some(old(self).t), ..*old(self) }),
    {
        self.disappear = Option::Some(self.t);
    }

    /// Advance the mask's clock.
    pub fn tick(&mut self, t: usize)
        requires
            old(self).wf(),
            old(self).t <= t,
        ensures
            final(self).wf(),
            *final(self) == (Zoom { t, ..*old(self) }),
    {
        self.t = t;
    }

    /// Whether the mask blanks cell `(x, y)`.
    fn blank_at(&self, x: u32, y: u32) -> (b: bool)
        requires
            self.wf(),
            self.state is Zoom,
            x < self.width,
            y < self.height,
        ensures
            b == zoom_blank_at(*self, x as int, y as int),
    {
        let num: i64 = match self.disappear {
            Option::Some(t0) => {
                let age = self.t - t0;
                if age >= 50 {
                    0
                } else {
                    50 - age as i64
                }
            },
            Option::None => 50,
        };
        let (r1, p1) = match self.state {
            Cutout::Zoom { t, pos, radius } => {
                let age = self.t - t;
                let r = if age >= 150 {
                    radius as i64
                } else if (150 - age as i64) >= radius as i64 {
                    150 - age as i64
                } else {
                    radius as i64
                };
                (r, pos)
            },
            Cutout::Disabled => (0, (-1, -1)),
        };
        let (r2, p2) = match self.state2 {
            Cutout::Zoom { t, pos, radius } => {
                let age = self.t - t;
                let r = if age >= radius as usize {
                    radius as i64
                } else {
                    age as i64
                };
                (r, pos)
            },
            Cutout::Disabled => (0, (-1, -1)),
        };
        if num == 0 {
            return true;
        }
        outside(x as i64, y as i64, p1, r1, num) && outside(x as i64, y as i64, p2, r2, num)
    }

    /// The mask's blanking tiles over the whole screen, row-major.
    #[verifier::loop_isolation(false)]
    pub fn tiles(&self) -> (r: Vec<(Draw, (i32, i32))>)
        requires
            self.wf(),
        ensures
            r@ == zoom_tiles_upto(*self, (self.width * self.height) as int),
    {
        let mut r: Vec<(Draw, (i32, i32))> = Vec::new();
        match self.state {
            Cutout::Disabled => {
                proof {
                    assert(r@ =~= zoom_tiles_upto(*self, (self.width * self.height) as int));
                }
                r
            },
            Cutout::Zoom { .. } => {
                let w = self.width;
                let h = self.height;
                let ghost wi = w as int;
                let mut y: u32 = 0;
                while y < h
                    invariant
                        y <= h,
                        r@ == zoom_tiles_upto(*self, y * w),
                    decreases h - y,
                {
                    let mut x: u32 = 0;
                    while x < w
                        invariant
                            y < h,
                            x <= w,
                            r@ == zoom_tiles_upto(*self, y * w + x),
                        decreases w - x,
                    {
                        proof {
                            crate::water::lemma_grid_index(x as int, y as int, wi, h as int);
                            vstd::arithmetic::div_mod::lemma_fundamental_div_mod_converse(
                                (y as int) * wi + (x as int),
                                wi,
                                y as int,
                                x as int,
                            );
                        }
                        if self.blank_at(x, y) {
                            let tile = Draw {
                                item: ' ',
                                fg_color: Option::None,
                                bg_color: Option::None,
                                z_idx: ZOOM_Z_IDX,
                                italic: false,
                            };
                            r.push((tile, (x as i32, y as i32)));
                        }
                        x = x + 1;
                    }
                    proof {
                        crate::water::lemma_row_unfold(y as int, wi);
                    }
                    y = y + 1;
                }
                proof {
                    vstd::arithmetic::mul::lemma_mul_is_commutative(y as int, w as int);
                    assert(r@ =~= zoom_tiles_upto(*self, (self.width * self.height) as int));
                }
                r
            },
        }
    }
}

/// Whether `(x, y)` lies outside the scaled ellipse of radius `r`
/// around `p` under fade numerator `num`.
fn outside(x: i64, y: i64, p: (i32, i32), r: i64, num: i64) -> (b: bool)
    requires
        0 <= x <= 10_000,
        0 <= y <= 10_000,
        -1_000_000 <= p.0 <= 1_000_000,
        -1_000_000 <= p.1 <= 1_000_000,
        0 <= r <= 1_000_000,
        0 <= num <= 50,
    ensures
        b == outside_cut(x as int, y as int, p, r as int, num as int),
{
    let dx = x - p.0 as i64;
    let dy = y - p.1 as i64;
    proof {
        assert(0 <= dx * dx <= 1_030_000_000_000 && 0 <= dy * dy <= 1_030_000_000_000 && 0 <= r * r
            <= 1_000_000_000_000) by (nonlinear_arith)
            requires
                -1_010_000 <= dx <= 1_010_000,
                -1_010_000 <= dy <= 1_010_000,
                0 <= r <= 1_000_000,
        ;
        assert(0 <= (r * r) * num <= 50_000_000_000_000) by (nonlinear_arith)
            requires
                0 <= r * r <= 1_000_000_000_000,
                0 <= num <= 50,
        ;
    }
    let lhs = 1250 * (dx * dx) + 6050 * (dy * dy);
    let rr_fade = (r * r) * num;
    let rhs = 25 * rr_fade;
    lhs > rhs
}

} // verus!
