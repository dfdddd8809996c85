use vstd::prelude::*;

use crate::num::{clamp_i32, clamp_i64, clamp_rng, clip, div_trunc, lemma_tdiv_bound, tdiv, UNIT};
use crate::util::Draw;

verus! {

/// Supersampling factor: each logical cell covers a `SCALE` by `SCALE`
/// block of simulation cells.
pub const SCALE: u32 = 2;

/// The resting displacement of the surface.
pub const NEUTRAL: i64 = 500_000_000;

/// Hard magnitude bound kept on every stored displacement and velocity.
/// It lies far outside the range the dynamics visits; it only arrests a
/// diverging cell instead of letting the arithmetic overflow.
pub const BOUND: i64 = 8 * UNIT;

/// Margin by which a neighbor must exceed a cell's displacement to count
/// as higher when a glyph is chosen (nine thousandths of a unit).
pub const EPSILON: i64 = 9_000_000;

/// Displacement above which a cell is drawn in the above-water color
/// (five hundred seven thousandths of a unit).
pub const SURFACE: i64 = 507_000_000;

/// Depth at which water tiles are drawn.
pub const WATER_Z_IDX: i32 = 1;

/// Velocity kept per step before the forces act: 996/1000.
pub const DAMP_NUM: i64 = 996;
pub const DAMP_DEN: u64 = 1000;

/// Squared wave speed: 4/10000 (the wave speed is one fiftieth).
pub const WAVE_NUM: i64 = 4;
pub const WAVE_DEN: u64 = 10000;

/// Restoring coefficient times the squared wave speed: 32/100000.
pub const REST_NUM: i64 = 32;
pub const REST_DEN: u64 = 100000;

/// The state of one simulation cell that takes part in the physics:
/// a displacement and a velocity, in fixed-point units.
#[derive(Clone, Copy, Debug, PartialEq, Eq, Structural)]
pub struct Particle {
    pub pos: i64,
    pub vel: i64,
}

/// A simulation cell: either a `Normal` particle updated every substep,
/// or `Fixed`, which never changes and always reads as the neutral,
/// unmoving state.
#[derive(Clone, Copy, Debug, PartialEq, Eq, Structural)]
pub enum ParticleType {
    Normal(Particle),
    Fixed,
}

/// Row-major index arithmetic stays inside the grid and inside the
/// machine range for dimensions up to `32768`.
pub proof fn lemma_grid_index(x: int, y: int, w: int, h: int)
    requires
        0 <= x < w,
        0 <= y < h,
        w <= 32768,
        h <= 32768,
    ensures
        0 <= y * w + x < w * h,
        w * h <= 1073741824,
{
    assert(0 <= y * w + x < w * h && w * h <= 1073741824) by (nonlinear_arith)
        requires
            0 <= x < w,
            0 <= y < h,
            w <= 32768,
            h <= 32768,
    ;
}

/// A flat row-major index decomposes into in-range coordinates.
pub proof fn lemma_index_coords(i: int, w: int, h: int)
    requires
        w >= 1,
        h >= 1,
        0 <= i < w * h,
    ensures
        0 <= i % w < w,
        0 <= i / w < h,
        i == (i / w) * w + (i % w),
{
    vstd::arithmetic::div_mod::lemma_fundamental_div_mod(i, w);
    vstd::arithmetic::div_mod::lemma_mod_bound(i, w);
    vstd::arithmetic::div_mod::lemma_div_pos_is_pos(i, w);
    assert(i / w < h && i == (i / w) * w + (i % w)) by (nonlinear_arith)
        requires
            w >= 1,
            0 <= i < w * h,
            i == w * (i / w) + (i % w),
            0 <= i % w < w,
            0 <= i / w,
    ;
}

/// Multiplying out one more row: `(y + 1) * w == y * w + w`.
pub proof fn lemma_row_unfold(y: int, w: int)
    ensures
        (y + 1) * w == y * w + w,
{
    assert((y + 1) * w == y * w + w) by (nonlinear_arith);
}

/// Both stored quantities of a cell lie within `BOUND`.
pub open spec fn pt_bounded(pt: ParticleType) -> bool {
    match pt {
        ParticleType::Normal(p) => -BOUND <= p.pos <= BOUND && -BOUND <= p.vel <= BOUND,
        ParticleType::Fixed => true,
    }
}

/// The displacement read at simulation cell `(x, y)`: coordinates are
/// clamped to the grid, and a `Fixed` cell reads as `NEUTRAL`.
pub open spec fn sim_pos(g: Seq<ParticleType>, w: int, h: int, x: int, y: int) -> int {
    let xc = clamp_rng(x, 0, w - 1);
    let yc = clamp_rng(y, 0, h - 1);
    match g[yc * w + xc] {
        ParticleType::Normal(p) => p.pos as int,
        ParticleType::Fixed => NEUTRAL as int,
    }
}

/// The velocity read at simulation cell `(x, y)`, clamped and with
/// `Fixed` cells reading as zero.
pub open spec fn sim_vel(g: Seq<ParticleType>, w: int, h: int, x: int, y: int) -> int {
    let xc = clamp_rng(x, 0, w - 1);
    let yc = clamp_rng(y, 0, h - 1);
    match g[yc * w + xc] {
        ParticleType::Normal(p) => p.vel as int,
        ParticleType::Fixed => 0,
    }
}

/// The velocity of the `Normal` cell at `(x, y)` after one substep: the
/// damped previous velocity, plus the squared wave speed times the
/// discrete Laplacian of the displacement, plus the restoring pull
/// toward `NEUTRAL`; each product is divided with truncation and the
/// result is clamped into `BOUND`.
pub open spec fn next_vel(g: Seq<ParticleType>, w: int, h: int, x: int, y: int) -> int {
    match g[y * w + x] {
        ParticleType::Normal(p) => {
            let lap = sim_pos(g, w, h, x + 1, y) + sim_pos(g, w, h, x - 1, y) - 2 * p.pos + sim_pos(
                g,
                w,
                h,
                x,
                y + 1,
            ) + sim_pos(g, w, h, x, y - 1) - 2 * p.pos;
            clip(
                tdiv(DAMP_NUM * p.vel, DAMP_DEN as int) + tdiv(WAVE_NUM * lap, WAVE_DEN as int)
                    + tdiv(REST_NUM * (NEUTRAL - p.pos), REST_DEN as int),
                BOUND as int,
            )
        },
        ParticleType::Fixed => 0,
    }
}

/// One substep of the cell at `(x, y)`: `Fixed` stays `Fixed`; a
/// `Normal` cell moves by its pre-step velocity and takes `next_vel`.
/// All reads are of pre-step values.
pub open spec fn step_cell(g: Seq<ParticleType>, w: int, h: int, x: int, y: int) -> ParticleType {
    match g[y * w + x] {
        ParticleType::Normal(p) => ParticleType::Normal(
            Particle {
                pos: clip(p.pos + p.vel, BOUND as int) as i64,
                vel: next_vel(g, w, h, x, y) as i64,
            },
        ),
        ParticleType::Fixed => ParticleType::Fixed,
    }
}

/// One synchronous substep of the whole grid.
pub open spec fn step_grid(g: Seq<ParticleType>, w: int, h: int) -> Seq<ParticleType> {
    Seq::new(g.len(), |i: int| step_cell(g, w, h, i % w, i / w))
}

/// `n` substeps of the whole grid.
pub open spec fn step_grid_n(g: Seq<ParticleType>, w: int, h: int, n: nat) -> Seq<ParticleType>
    decreases n,
{
    if n == 0 {
        g
    } else {
        step_grid(step_grid_n(g, w, h, (n - 1) as nat), w, h)
    }
}

/// Whether `(cx, cy)` lies in the simulation block of logical cell
/// `(lx, ly)`.
pub open spec fn in_block(cx: int, cy: int, lx: int, ly: int) -> bool {
    2 * lx <= cx < 2 * lx + 2 && 2 * ly <= cy < 2 * ly + 2
}

/// The grid after a perturbation of logical cell `(lx, ly)`: every
/// `Normal` cell of its block is set to maximal displacement with its
/// velocity kept; everything else is unchanged.
pub open spec fn perturb_cell(g: Seq<ParticleType>, w: int, lx: int, ly: int, i: int) -> ParticleType {
    if in_block(i % w, i / w, lx, ly) {
        match g[i] {
            ParticleType::Normal(p) => ParticleType::Normal(Particle { pos: UNIT, vel: p.vel }),
            ParticleType::Fixed => ParticleType::Fixed,
        }
    } else {
        g[i]
    }
}

pub open spec fn perturb_grid(g: Seq<ParticleType>, w: int, lx: int, ly: int) -> Seq<ParticleType> {
    Seq::new(g.len(), |i: int| perturb_cell(g, w, lx, ly, i))
}

/// The grid after pinning logical cell `(lx, ly)`: its whole block
/// becomes `Fixed`.
pub open spec fn pin_cell(g: Seq<ParticleType>, w: int, lx: int, ly: int, i: int) -> ParticleType {
    if in_block(i % w, i / w, lx, ly) {
        ParticleType::Fixed
    } else {
        g[i]
    }
}

pub open spec fn pin_grid(g: Seq<ParticleType>, w: int, lx: int, ly: int) -> Seq<ParticleType> {
    Seq::new(g.len(), |i: int| pin_cell(g, w, lx, ly, i))
}

/// Sum of the displacements of the block of logical cell `(lx, ly)`.
pub open spec fn block_pos_sum(g: Seq<ParticleType>, w: int, h: int, lx: int, ly: int) -> int {
    sim_pos(g, w, h, 2 * lx, 2 * ly) + sim_pos(g, w, h, 2 * lx + 1, 2 * ly) + sim_pos(
        g,
        w,
        h,
        2 * lx,
        2 * ly + 1,
    ) + sim_pos(g, w, h, 2 * lx + 1, 2 * ly + 1)
}

pub open spec fn block_vel_sum(g: Seq<ParticleType>, w: int, h: int, lx: int, ly: int) -> int {
    sim_vel(g, w, h, 2 * lx, 2 * ly) + sim_vel(g, w, h, 2 * lx + 1, 2 * ly) + sim_vel(
        g,
        w,
        h,
        2 * lx,
        2 * ly + 1,
    ) + sim_vel(g, w, h, 2 * lx + 1, 2 * ly + 1)
}

/// The effective displacement of logical cell `(lx, ly)` (clamped to the
/// logical grid): the mean over its block, truncated toward zero.
pub open spec fn effective_pos(g: Seq<ParticleType>, w: int, h: int, lx: int, ly: int) -> int {
    let cx = clamp_rng(lx, 0, w / 2 - 1);
    let cy = clamp_rng(ly, 0, h / 2 - 1);
    tdiv(block_pos_sum(g, w, h, cx, cy), 4)
}

/// The effective velocity of logical cell `(lx, ly)`.
pub open spec fn effective_vel(g: Seq<ParticleType>, w: int, h: int, lx: int, ly: int) -> int {
    let cx = clamp_rng(lx, 0, w / 2 - 1);
    let cy = clamp_rng(ly, 0, h / 2 - 1);
    tdiv(block_vel_sum(g, w, h, cx, cy), 4)
}

/// Whether the block of logical cell `(lx, ly)` holds at least one
/// `Normal` cell.
pub open spec fn block_has_normal(g: Seq<ParticleType>, w: int, lx: int, ly: int) -> bool {
    ||| g[2 * ly * w + 2 * lx] is Normal
    ||| g[2 * ly * w + 2 * lx + 1] is Normal
    ||| g[(2 * ly + 1) * w + 2 * lx] is Normal
    ||| g[(2 * ly + 1) * w + 2 * lx + 1] is Normal
}

/// Whether a neighbor displacement counts as higher than the cell's own.
pub open spec fn cat_high(neighbor: int, own: int) -> bool {
    neighbor > own + EPSILON
}

/// The glyph for the pattern of higher neighbors, in the order left,
/// up, right, down.
pub open spec fn glyph(l: bool, u: bool, r: bool, d: bool) -> char {
    if !l && !u && !r && !d {
        '.'
    } else if l && u && r && d {
        '.'
    } else if l && !u && !r && !d {
        '-'
    } else if !l && u && !r && !d {
        '\''
    } else if !l && !u && r && !d {
        '-'
    } else if !l && !u && !r && d {
        '.'
    } else if !l && u && !r && d {
        '|'
    } else if l && !u && r && !d {
        '-'
    } else if l && u && !r && !d {
        '/'
    } else if !l && !u && r && d {
        '/'
    } else if l && !u && !r && d {
        '\\'
    } else if !l && u && r && !d {
        '\\'
    } else if !l && u && r && d {
        '|'
    } else if l && !u && r && d {
        '-'
    } else if l && u && !r && d {
        '|'
    } else {
        '-'
    }
}

/// The tile a cell with displacement `own` shows among neighbors with
/// displacements `l`, `u`, `r`, `d`: the slope glyph, colored by whether
/// the cell stands above the surface threshold, at depth zero.
pub open spec fn shape_draw(own: int, l: int, u: int, r: int, d: int) -> Draw {
    Draw {
        item: glyph(cat_high(l, own), cat_high(u, own), cat_high(r, own), cat_high(d, own)),
        fg_color: Some(if own > SURFACE { 254u8 } else { 33u8 }),
        bg_color: None,
        z_idx: 0,
        italic: false,
    }
}

/// The tile rendered for logical cell `(lx, ly)`: its shape among its
/// four logical neighbors, raised to the water depth.
pub open spec fn water_tile(g: Seq<ParticleType>, w: int, h: int, lx: int, ly: int) -> Draw {
    Draw {
        z_idx: WATER_Z_IDX,
        ..shape_draw(
            effective_pos(g, w, h, lx, ly),
            effective_pos(g, w, h, lx - 1, ly),
            effective_pos(g, w, h, lx, ly - 1),
            effective_pos(g, w, h, lx + 1, ly),
            effective_pos(g, w, h, lx, ly + 1),
        )
    }
}

impl Particle {
    /// A particle at rest on the neutral surface.
    pub fn new() -> (r: Self)
        ensures
            r == (Particle { pos: NEUTRAL, vel: 0i64 }),
    {
        Particle { pos: NEUTRAL, vel: 0 }
    }

    /// The tile this particle shows among the given neighbors, in the
    /// order left, up, right, down.
    pub fn shape(&self, neighbors: (Particle, Particle, Particle, Particle)) -> (r: Draw)
        requires
            -BOUND <= self.pos <= BOUND,
    ensures
            r == shape_draw(
                self.pos as int,
                neighbors.0.pos as int,
                neighbors.1.pos as int,
                neighbors.2.pos as int,
                neighbors.3.pos as int,
            ),
    {
        let threshold = self.pos + EPSILON;
        let l = neighbors.0.pos > threshold;
        let u = neighbors.1.pos > threshold;
        let r = neighbors.2.pos > threshold;
        let d = neighbors.3.pos > threshold;
        let item = if !l && !u && !r && !d {
            '.'
        } else if l && u && r && d {
            '.'
        } else if l && !u && !r && !d {
            '-'
        } else if !l && u && !r && !d {
            '\''
        } else if !l && !u && r && !d {
            '-'
        } else if !l && !u && !r && d {
            '.'
        } else if !l && u && !r && d {
            '|'
        } else if l && !u && r && !d {
            '-'
        } else if l && u && !r && !d {
            '/'
        } else if !l && !u && r && d {
            '/'
        } else if l && !u && !r && d {
            '\\'
        } else if !l && u && r && !d {
            '\\'
        } else if !l && u && r && d {
            '|'
        } else if l && !u && r && d {
            '-'
        } else if l && u && !r && d {
            '|'
        } else {
            '-'
        };
        let color: u8 = if self.pos > SURFACE {
            254
        } else {
            33
        };
        Draw { item, fg_color: Some(color), bg_color: None, z_idx: 0, italic: false }
    }
}

/// The supersampled simulation grid: a dense row-major array of cells,
/// `width` by `height` simulation cells standing for a logical grid half
/// that size in each direction.
pub struct Water {
    pub width: u32,
    pub height: u32,
    pub grid: Vec<ParticleType>,
}

impl Water {
    /// Well-formedness: even dimensions within machine-safe range, a
    /// full grid, and every stored quantity within `BOUND`.
    pub open spec fn wf(self) -> bool {
        &&& 2 <= self.width <= 32768
        &&& 2 <= self.height <= 32768
        &&& self.width % 2 == 0
        &&& self.height % 2 == 0
        &&& self.grid@.len() == self.width * self.height
        &&& forall|i: int| 0 <= i < self.grid@.len() ==> pt_bounded(#[trigger] self.grid@[i])
    }

    /// A grid of `SCALE * width` by `SCALE * height` cells, all `Normal`
    /// and at rest.
    pub fn new(width: u32, height: u32) -> (r: Self)
        requires
            1 <= width <= 16384,
            1 <= height <= 16384,
        ensures
            r.wf(),
            r.width == SCALE * width,
            r.height == SCALE * height,
            forall|i: int|
                0 <= i < r.grid@.len() ==> r.grid@[i] == ParticleType::Normal(
                    Particle { pos: NEUTRAL, vel: 0i64 },
                ),
    {
        let w = SCALE * width;
        let h = SCALE * height;
        proof {
            lemma_grid_index(w - 1, h - 1, w as int, h as int);
        }
        let n = (w as usize) * (h as usize);
        let grid = vec![ParticleType::Normal(Particle { pos: NEUTRAL, vel: 0 }); n];
        Water { width: w, height: h, grid }
    }

    /// The index of the simulation cell nearest to `(x, y)`.
    fn sim_index(&self, x: i32, y: i32) -> (r: usize)
        requires
            self.wf(),
        ensures
            r == clamp_rng(y as int, 0, self.height - 1) * self.width + clamp_rng(
                x as int,
                0,
                self.width - 1,
            ),
            r < self.grid@.len(),
    {
        let xc = clamp_i32(x, 0, (self.width - 1) as i32);
        let yc = clamp_i32(y, 0, (self.height - 1) as i32);
        proof {
            lemma_grid_index(xc as int, yc as int, self.width as int, self.height as int);
        }
        (yc as usize) * (self.width as usize) + (xc as usize)
    }

    /// The cell nearest to `(x, y)` (coordinates clamped to the grid).
    pub fn get(&self, x: i32, y: i32) -> (r: ParticleType)
        requires
            self.wf(),
        ensures
            r == self.grid@[clamp_rng(y as int, 0, self.height - 1) * self.width + clamp_rng(
                x as int,
                0,
                self.width - 1,
            )],
    {
        let i = self.sim_index(x, y);
        self.grid[i]
    }

    /// The particle state read at `(x, y)`: a `Fixed` cell reads as the
    /// neutral, unmoving state.
    pub fn get_particle(&self, x: i32, y: i32) -> (r: Particle)
        requires
            self.wf(),
        ensures
            r.pos == sim_pos(self.grid@, self.width as int, self.height as int, x as int, y as int),
            r.vel == sim_vel(self.grid@, self.width as int, self.height as int, x as int, y as int),
            -BOUND <= r.pos <= BOUND,
            -BOUND <= r.vel <= BOUND,
    {
        proof {
            let xc = clamp_rng(x as int, 0, self.width - 1);
            let yc = clamp_rng(y as int, 0, self.height - 1);
            lemma_grid_index(xc, yc, self.width as int, self.height as int);
            assert(pt_bounded(self.grid@[yc * self.width + xc]));
        }
        match self.get(x, y) {
            ParticleType::Normal(particle) => particle,
            ParticleType::Fixed => Particle { pos: NEUTRAL, vel: 0 },
        }
    }

    /// Replace the cell at `(x, y)`.
    pub fn set(&mut self, x: u32, y: u32, pt: ParticleType)
        requires
            old(self).wf(),
            x < old(self).width,
            y < old(self).height,
            pt_bounded(pt),
        ensures
            final(self).width == old(self).width,
            final(self).height == old(self).height,
            final(self).grid@ == old(self).grid@.update(y * old(self).width + x, pt),
            final(self).wf(),
    {
        proof {
            lemma_grid_index(x as int, y as int, self.width as int, self.height as int);
        }
        let i = (y as usize) * (self.width as usize) + (x as usize);
        self.grid[i] = pt;
    }

    /// The effective (block-averaged) particle of logical cell
    /// `(x, y)`, with the coordinates clamped to the logical grid.
    pub fn get_big(&self, x: i32, y: i32) -> (r: Particle)
        requires
            self.wf(),
        ensures
            r.pos == effective_pos(
                self.grid@,
                self.width as int,
                self.height as int,
                x as int,
                y as int,
            ),
            r.vel == effective_vel(
                self.grid@,
                self.width as int,
                self.height as int,
                x as int,
                y as int,
            ),
            -BOUND <= r.pos <= BOUND,
            -BOUND <= r.vel <= BOUND,
    {
        let lw = self.width / 2;
        let lh = self.height / 2;
        let lx = clamp_i32(x, 0, (lw - 1) as i32);
        let ly = clamp_i32(y, 0, (lh - 1) as i32);
        let p00 = self.get_particle(2 * lx, 2 * ly);
        let p10 = self.get_particle(2 * lx + 1, 2 * ly);
        let p01 = self.get_particle(2 * lx, 2 * ly + 1);
        let p11 = self.get_particle(2 * lx + 1, 2 * ly + 1);
        let pos_sum = p00.pos + p10.pos + p01.pos + p11.pos;
        let vel_sum = p00.vel + p10.vel + p01.vel + p11.vel;
        proof {
            lemma_tdiv_bound(pos_sum as int, 4, BOUND as int);
            lemma_tdiv_bound(vel_sum as int, 4, BOUND as int);
        }
        Particle { pos: div_trunc(pos_sum, 4), vel: div_trunc(vel_sum, 4) }
    }

    /// Pin the whole block of logical cell `(x, y)`: initialization-time
    /// terrain carving; the block becomes `Fixed` for good.
    pub fn big_fix(&mut self, x: u32, y: u32)
        requires
            old(self).wf(),
            x < old(self).width / 2,
            y < old(self).height / 2,
        ensures
            final(self).width == old(self).width,
            final(self).height == old(self).height,
            final(self).grid@ == pin_grid(
                old(self).grid@,
                old(self).width as int,
                x as int,
                y as int,
            ),
            final(self).wf(),
    {
        let sx = SCALE * x;
        let sy = SCALE * y;
        self.set(sx, sy, ParticleType::Fixed);
        self.set(sx + 1, sy, ParticleType::Fixed);
        self.set(sx, sy + 1, ParticleType::Fixed);
        self.set(sx + 1, sy + 1, ParticleType::Fixed);
        proof {
            let g0 = old(self).grid@;
            let w = old(self).width as int;
            let lx = x as int;
            let ly = y as int;
            let h = old(self).height as int;
            vstd::arithmetic::div_mod::lemma_fundamental_div_mod(w, 2);
            vstd::arithmetic::div_mod::lemma_fundamental_div_mod(h, 2);
            lemma_row_unfold(2 * ly, w);
            lemma_grid_index(2 * lx, 2 * ly, w, h);
            lemma_grid_index(2 * lx + 1, 2 * ly, w, h);
            lemma_grid_index(2 * lx, 2 * ly + 1, w, h);
            lemma_grid_index(2 * lx + 1, 2 * ly + 1, w, h);
            lemma_block_indices(g0.len() as int, w, h, lx, ly);
            let gp = pin_grid(g0, w, lx, ly);
            assert(self.grid@.len() == gp.len());
            assert forall|i: int| 0 <= i < gp.len() implies self.grid@[i] == gp[i] by {
                assert(gp[i] == pin_cell(g0, w, lx, ly, i));
            }
            assert(self.grid@ =~= gp);
        }
    }

    /// Perturb logical cell `(x, y)`: set every `Normal` cell of its
    /// block to maximal displacement, keeping velocities; a no-op when
    /// `(x, y)` lies outside the logical grid.
    pub fn perturb(&mut self, x: i32, y: i32)
        requires
            old(self).wf(),
        ensures
            final(self).width == old(self).width,
            final(self).height == old(self).height,
            final(self).wf(),
            0 <= x < old(self).width / 2 && 0 <= y < old(self).height / 2 ==> final(self).grid@
                == perturb_grid(old(self).grid@, old(self).width as int, x as int, y as int),
            !(0 <= x < old(self).width / 2 && 0 <= y < old(self).height / 2) ==> final(self).grid@
                == old(self).grid@,
    {
        if x < 0 || y < 0 || x >= (self.width / 2) as i32 || y >= (self.height / 2) as i32 {
            return ;
        }
        let sx = SCALE * (x as u32);
        let sy = SCALE * (y as u32);
        self.splash(sx, sy);
        self.splash(sx + 1, sy);
        self.splash(sx, sy + 1);
        self.splash(sx + 1, sy + 1);
        proof {
            let g0 = old(self).grid@;
            let w = old(self).width as int;
            let lx = x as int;
            let ly = y as int;
            let h = old(self).height as int;
            vstd::arithmetic::div_mod::lemma_fundamental_div_mod(w, 2);
            vstd::arithmetic::div_mod::lemma_fundamental_div_mod(h, 2);
            lemma_row_unfold(2 * ly, w);
            lemma_grid_index(2 * lx, 2 * ly, w, h);
            lemma_grid_index(2 * lx + 1, 2 * ly, w, h);
            lemma_grid_index(2 * lx, 2 * ly + 1, w, h);
            lemma_grid_index(2 * lx + 1, 2 * ly + 1, w, h);
            lemma_block_indices(g0.len() as int, w, h, lx, ly);
            let gp = perturb_grid(g0, w, lx, ly);
            assert(self.grid@.len() == gp.len());
            assert forall|i: int| 0 <= i < gp.len() implies self.grid@[i] == gp[i] by {
                assert(gp[i] == perturb_cell(g0, w, lx, ly, i));
            }
            assert(self.grid@ =~= gp);
        }
    }

    /// Set the cell at `(x, y)` to maximal displacement if it is
    /// `Normal`, keeping its velocity.
    fn splash(&mut self, x: u32, y: u32)
        requires
            old(self).wf(),
            x < old(self).width,
            y < old(self).height,
        ensures
            final(self).width == old(self).width,
            final(self).height == old(self).height,
            final(self).wf(),
            final(self).grid@ == old(self).grid@.update(
                y * old(self).width + x,
                match old(self).grid@[y * old(self).width + x] {
                    ParticleType::Normal(p) => ParticleType::Normal(
                        Particle { pos: UNIT, vel: p.vel },
                    ),
                    ParticleType::Fixed => ParticleType::Fixed,
                },
            ),
    {
        proof {
            lemma_grid_index(x as int, y as int, self.width as int, self.height as int);
        }
        let i = (y as usize) * (self.width as usize) + (x as usize);
        match self.grid[i] {
            ParticleType::Normal(p) => {
                self.grid[i] = ParticleType::Normal(Particle { pos: UNIT, vel: p.vel });
            },
            ParticleType::Fixed => {
                proof {
                    assert(self.grid@ =~= old(self).grid@.update(
                        y * old(self).width + x,
                        old(self).grid@[y * old(self).width + x],
                    ));
                }
            },
        }
    }

    /// Whether a resting piece of debris at screen position `pos` would
    /// land on open water: the position maps one-based onto the logical
    /// grid and the block under it still holds a `Normal` cell.
    pub fn is_wet(&self, pos: (i32, i32)) -> (r: bool)
        requires
            self.wf(),
        ensures
            r == (1 <= pos.0 <= self.width / 2 && 1 <= pos.1 <= self.height / 2
                && block_has_normal(
                self.grid@,
                self.width as int,
                pos.0 - 1,
                pos.1 - 1,
            )),
    {
        if !(1 <= pos.0 && pos.0 <= (self.width / 2) as i32 && 1 <= pos.1 && pos.1
            <= (self.height / 2) as i32) {
            return false;
        }
        let lx = (pos.0 - 1) as u32;
        let ly = (pos.1 - 1) as u32;
        let sx = SCALE * lx;
        let sy = SCALE * ly;
        proof {
            lemma_grid_index(sx as int, sy as int, self.width as int, self.height as int);
            lemma_grid_index(sx as int + 1, sy as int, self.width as int, self.height as int);
            lemma_grid_index(sx as int, sy as int + 1, self.width as int, self.height as int);
            lemma_grid_index(
                sx as int + 1,
                sy as int + 1,
                self.width as int,
                self.height as int,
            );
            lemma_row_unfold(sy as int, self.width as int);
        }
        let w = self.width as usize;
        let i00 = (sy as usize) * w + (sx as usize);
        let i10 = i00 + 1;
        let i01 = i00 + w;
        let i11 = i01 + 1;
        let wet = matches!(self.grid[i00], ParticleType::Normal(_)) || matches!(
            self.grid[i10],
            ParticleType::Normal(_),
        ) || matches!(self.grid[i01], ParticleType::Normal(_)) || matches!(
            self.grid[i11],
            ParticleType::Normal(_),
        );
        wet
    }

    /// One substep of the single cell at `(x, y)`, computed from the
    /// current (pre-step) grid.
    #[verifier::rlimit(100)]
    #[verifier::spinoff_prover]
    fn step_at(&self, x: u32, y: u32) -> (r: ParticleType)
        requires
            self.wf(),
            x < self.width,
            y < self.height,
        ensures
            r == step_cell(self.grid@, self.width as int, self.height as int, x as int, y as int),
            pt_bounded(r),
    {
        proof {
            lemma_grid_index(x as int, y as int, self.width as int, self.height as int);
        }
        let i = (y as usize) * (self.width as usize) + (x as usize);
        match self.grid[i] {
            ParticleType::Normal(p) => {
                let left = self.get_particle(x as i32 - 1, y as i32);
                let up = self.get_particle(x as i32, y as i32 - 1);
                let right = self.get_particle(x as i32 + 1, y as i32);
                let down = self.get_particle(x as i32, y as i32 + 1);
                let ddx = right.pos + left.pos - 2 * p.pos;
                let ddy = down.pos + up.pos - 2 * p.pos;
                let lap = ddx + ddy;
                let t1 = div_trunc(DAMP_NUM * p.vel, DAMP_DEN);
                let t2 = div_trunc(WAVE_NUM * lap, WAVE_DEN);
                let t3 = div_trunc(REST_NUM * (NEUTRAL - p.pos), REST_DEN);
                proof {
                    lemma_tdiv_bound(DAMP_NUM * p.vel, DAMP_DEN as int, 7_968_000_000);
                    lemma_tdiv_bound(WAVE_NUM * lap, WAVE_DEN as int, BOUND as int);
                    lemma_tdiv_bound(REST_NUM * (NEUTRAL - p.pos), REST_DEN as int, BOUND as int);
                }
                let vel = clamp_i64(t1 + t2 + t3, BOUND);
                let pos = clamp_i64(p.pos + p.vel, BOUND);
                ParticleType::Normal(Particle { pos, vel })
            },
            ParticleType::Fixed => ParticleType::Fixed,
        }
    }

    /// One substep of the discretized wave equation, applied
    /// synchronously: every cell is stepped from the pre-step values of
    /// its neighbors, by writing a fresh grid.
    #[verifier::loop_isolation(false)]
    pub fn advance(&mut self)
        requires
            old(self).wf(),
        ensures
            final(self).width == old(self).width,
            final(self).height == old(self).height,
            final(self).grid@ == step_grid(
                old(self).grid@,
                old(self).width as int,
                old(self).height as int,
            ),
            final(self).wf(),
    {
        let w = self.width;
        let h = self.height;
        let ghost g0 = self.grid@;
        let ghost wi = w as int;
        let ghost hi = h as int;
        let mut next: Vec<ParticleType> = Vec::new();
        let mut y: u32 = 0;
        while y < h
            invariant
                y <= h,
                next@.len() == y * w,
                forall|j: int|
                    0 <= j < next@.len() ==> next@[j] == step_cell(g0, wi, hi, j % wi, j / wi),
                forall|j: int| 0 <= j < next@.len() ==> pt_bounded(#[trigger] next@[j]),
            decreases h - y,
        {
            let mut x: u32 = 0;
            while x < w
                invariant
                    y < h,
                    x <= w,
                    next@.len() == y * w + x,
                    forall|j: int|
                        0 <= j < next@.len() ==> next@[j] == step_cell(g0, wi, hi, j % wi, j / wi),
                    forall|j: int| 0 <= j < next@.len() ==> pt_bounded(#[trigger] next@[j]),
                decreases w - x,
            {
                let npt = self.step_at(x, y);
                next.push(npt);
                proof {
                    vstd::arithmetic::div_mod::lemma_fundamental_div_mod_converse(
                        (y as int) * wi + (x as int),
                        wi,
                        y as int,
                        x as int,
                    );
                    assert(next@[(y as int) * wi + (x as int)] == step_cell(
                        g0,
                        wi,
                        hi,
                        x as int,
                        y as int,
                    ));
                }
                x = x + 1;
            }
            proof {
                lemma_row_unfold(y as int, wi);
            }
            y = y + 1;
        }
        self.grid = next;
        proof {
            assert(y == h);
            assert(self.grid@.len() == (h as int) * (w as int));
            assert(g0.len() == old(self).width * old(self).height);
            assert(step_grid(g0, wi, hi).len() == g0.len());
            assert(self.grid@.len() == step_grid(g0, wi, hi).len());
            assert forall|i: int| 0 <= i < self.grid@.len() implies self.grid@[i] == step_grid(
                g0,
                wi,
                hi,
            )[i] by {
                assert(step_grid(g0, wi, hi)[i] == step_cell(g0, wi, hi, i % wi, i / wi));
            }
            assert(self.grid@ =~= step_grid(g0, wi, hi));
        }
    }

    /// One rendered tick of the simulation: seven substeps.
    #[verifier::loop_isolation(false)]
    pub fn tick(&mut self)
        requires
            old(self).wf(),
        ensures
            final(self).width == old(self).width,
            final(self).height == old(self).height,
            final(self).grid@ == step_grid_n(
                old(self).grid@,
                old(self).width as int,
                old(self).height as int,
                7,
            ),
            final(self).wf(),
    {
        let mut i: u32 = 0;
        while i < 7
            invariant
                i <= 7,
                self.wf(),
                self.width == old(self).width,
                self.height == old(self).height,
                self.grid@ == step_grid_n(
                    old(self).grid@,
                    old(self).width as int,
                    old(self).height as int,
                    i as nat,
                ),
            decreases 7 - i,
        {
            self.advance();
            i = i + 1;
        }
    }

    /// The full logical frame of water tiles, row-major: the tile of
    /// each logical cell together with its position.
    #[verifier::loop_isolation(false)]
    pub fn tiles(&self) -> (r: Vec<(Draw, (i32, i32))>)
        requires
            self.wf(),
        ensures
            r@.len() == (self.width / 2) * (self.height / 2),
            forall|k: int|
                0 <= k < r@.len() ==> #[trigger] r@[k] == (
                    water_tile(
                        self.grid@,
                        self.width as int,
                        self.height as int,
                        k % (self.width / 2) as int,
                        k / (self.width / 2) as int,
                    ),
                    ((k % (self.width / 2) as int) as i32, (k / (self.width / 2) as int) as i32),
                ),
    {
        let lw = self.width / 2;
        let lh = self.height / 2;
        let ghost lwi = lw as int;
        let mut r: Vec<(Draw, (i32, i32))> = Vec::new();
        let mut y: u32 = 0;
        while y < lh
            invariant
                y <= lh,
                r@.len() == y * lw,
                forall|k: int|
                    0 <= k < r@.len() ==> #[trigger] r@[k] == (
                        water_tile(
                            self.grid@,
                            self.width as int,
                            self.height as int,
                            k % lwi,
                            k / lwi,
                        ),
                        ((k % lwi) as i32, (k / lwi) as i32),
                    ),
            decreases lh - y,
        {
            let mut x: u32 = 0;
            while x < lw
                invariant
                    y < lh,
                    x <= lw,
                    r@.len() == y * lw + x,
                    forall|k: int|
                        0 <= k < r@.len() ==> #[trigger] r@[k] == (
                            water_tile(
                                self.grid@,
                                self.width as int,
                                self.height as int,
                                k % lwi,
                                k / lwi,
                            ),
                            ((k % lwi) as i32, (k / lwi) as i32),
                        ),
                decreases lw - x,
            {
                let xi = x as i32;
                let yi = y as i32;
                let own = self.get_big(xi, yi);
                let left = self.get_big(xi - 1, yi);
                let up = self.get_big(xi, yi - 1);
                let right = self.get_big(xi + 1, yi);
                let down = self.get_big(xi, yi + 1);
                let tile = own.shape((left, up, right, down)).with_z(WATER_Z_IDX);
                r.push((tile, (xi, yi)));
                proof {
                    vstd::arithmetic::div_mod::lemma_fundamental_div_mod_converse(
                        (y as int) * lwi + (x as int),
                        lwi,
                        y as int,
                        x as int,
                    );
                }
                x = x + 1;
            }
            proof {
                lemma_row_unfold(y as int, lwi);
            }
            y = y + 1;
        }
        proof {
            assert(y == lh);
            assert(r@.len() == (lh as int) * (lw as int));
            assert(r@.len() == (self.width / 2) * (self.height / 2));
        }
        r
    }
}

/// For a logical cell `(lx, ly)` inside the grid, a flat index `i` lies
/// in its block exactly when `i` is one of the four block indices.
proof fn lemma_block_indices(len: int, w: int, h: int, lx: int, ly: int)
    requires
        w >= 2,
        h >= 2,
        len == w * h,
        0 <= lx < w / 2,
        0 <= ly < h / 2,
        w % 2 == 0,
        h % 2 == 0,
    ensures
        forall|i: int|
            0 <= i < len ==> (#[trigger] in_block(i % w, i / w, lx, ly) <==> (i == 2 * ly * w + 2
                * lx || i == 2 * ly * w + 2 * lx + 1 || i == (2 * ly + 1) * w + 2 * lx || i == (2
                * ly + 1) * w + 2 * lx + 1)),
{
    assert forall|i: int| 0 <= i < len implies (#[trigger] in_block(i % w, i / w, lx, ly) <==> (i
        == 2 * ly * w + 2 * lx || i == 2 * ly * w + 2 * lx + 1 || i == (2 * ly + 1) * w + 2 * lx
        || i == (2 * ly + 1) * w + 2 * lx + 1)) by {
        lemma_index_coords(i, w, h);
        lemma_row_unfold(2 * ly, w);
        vstd::arithmetic::div_mod::lemma_fundamental_div_mod(w, 2);
        assert(2 * lx + 1 < w);
        assert(2 * ly + 1 < h) by {
            vstd::arithmetic::div_mod::lemma_fundamental_div_mod(h, 2);
        }
        let cx = i % w;
        let cy = i / w;
        if in_block(cx, cy, lx, ly) {
            assert(i == cy * w + cx);
            if cy == 2 * ly + 1 {
                assert(cy * w == (2 * ly + 1) * w);
            } else {
                assert(cy * w == 2 * ly * w);
            }
        }
        vstd::arithmetic::div_mod::lemma_fundamental_div_mod_converse(
            2 * ly * w + 2 * lx,
            w,
            2 * ly,
            2 * lx,
        );
        vstd::arithmetic::div_mod::lemma_fundamental_div_mod_converse(
            2 * ly * w + 2 * lx + 1,
            w,
            2 * ly,
            2 * lx + 1,
        );
        vstd::arithmetic::div_mod::lemma_fundamental_div_mod_converse(
            (2 * ly + 1) * w + 2 * lx,
            w,
            2 * ly + 1,
            2 * lx,
        );
        vstd::arithmetic::div_mod::lemma_fundamental_div_mod_converse(
            (2 * ly + 1) * w + 2 * lx + 1,
            w,
            2 * ly + 1,
            2 * lx + 1,
        );
    }
}

/// All-pinned invariance: a grid of nothing but `Fixed` cells is left
/// unchanged by a substep.
pub proof fn lemma_all_pinned_step(g: Seq<ParticleType>, w: int, h: int)
    requires
        w >= 1,
        h >= 1,
        g.len() == w * h,
        forall|i: int| 0 <= i < g.len() ==> (#[trigger] g[i]) is Fixed,
    ensures
        step_grid(g, w, h) == g,
{
    assert(step_grid(g, w, h).len() == g.len());
    assert forall|i: int| 0 <= i < g.len() implies step_grid(g, w, h)[i] == g[i] by {
        lemma_index_coords(i, w, h);
        assert(step_grid(g, w, h)[i] == step_cell(g, w, h, i % w, i / w));
    }
    assert(step_grid(g, w, h) =~= g);
}

/// All-pinned invariance, repeated: a grid of nothing but `Fixed` cells
/// is left unchanged by any number of substeps.
pub proof fn lemma_all_pinned_steps(g: Seq<ParticleType>, w: int, h: int, n: nat)
    requires
        w >= 1,
        h >= 1,
        g.len() == w * h,
        forall|i: int| 0 <= i < g.len() ==> (#[trigger] g[i]) is Fixed,
    ensures
        step_grid_n(g, w, h, n) == g,
    decreases n,
{
    if n > 0 {
        lemma_all_pinned_steps(g, w, h, (n - 1) as nat);
        lemma_all_pinned_step(g, w, h);
    }
}

/// The rest state is an exact fixed point of the integration: when every
/// `Normal` cell sits at `NEUTRAL` with zero velocity, a substep changes
/// nothing — the Laplacian, the damping term and the restoring term all
/// vanish exactly.
pub proof fn lemma_rest_state_fixed(g: Seq<ParticleType>, w: int, h: int)
    requires
        w >= 1,
        h >= 1,
        g.len() == w * h,
        forall|i: int|
            0 <= i < g.len() ==> ((#[trigger] g[i]) is Fixed || g[i] == ParticleType::Normal(
                Particle { pos: NEUTRAL, vel: 0i64 },
            )),
    ensures
        step_grid(g, w, h) == g,
{
    assert forall|i: int| 0 <= i < g.len() implies step_cell(g, w, h, i % w, i / w) == g[i] by {
        lemma_index_coords(i, w, h);
        let x = i % w;
        let y = i / w;
        match g[i] {
            ParticleType::Fixed => {},
            ParticleType::Normal(p) => {
                assert(forall|xx: int, yy: int| sim_pos(g, w, h, xx, yy) == NEUTRAL as int) by {
                    assert forall|xx: int, yy: int| sim_pos(g, w, h, xx, yy) == NEUTRAL as int by {
                        let xc = clamp_rng(xx, 0, w - 1);
                        let yc = clamp_rng(yy, 0, h - 1);
                        assert(0 <= yc * w + xc < g.len()) by (nonlinear_arith)
                            requires
                                0 <= xc < w,
                                0 <= yc < h,
                                g.len() == w * h,
                        ;
                    }
                }
                assert(tdiv(0, DAMP_DEN as int) == 0);
                assert(tdiv(0, WAVE_DEN as int) == 0);
                assert(tdiv(0, REST_DEN as int) == 0);
            },
        }
    }
    assert(step_grid(g, w, h).len() == g.len());
    assert forall|i: int| 0 <= i < g.len() implies step_grid(g, w, h)[i] == g[i] by {
        assert(step_grid(g, w, h)[i] == step_cell(g, w, h, i % w, i / w));
    }
    assert(step_grid(g, w, h) =~= g);
}

/// The rest state stays a fixed point under any number of substeps.
pub proof fn lemma_rest_state_fixed_n(g: Seq<ParticleType>, w: int, h: int, n: nat)
    requires
        w >= 1,
        h >= 1,
        g.len() == w * h,
        forall|i: int|
            0 <= i < g.len() ==> ((#[trigger] g[i]) is Fixed || g[i] == ParticleType::Normal(
                Particle { pos: NEUTRAL, vel: 0i64 },
            )),
    ensures
        step_grid_n(g, w, h, n) == g,
    decreases n,
{
    if n > 0 {
        lemma_rest_state_fixed_n(g, w, h, (n - 1) as nat);
        lemma_rest_state_fixed(g, w, h);
    }
}

} // verus!

