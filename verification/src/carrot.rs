use vstd::prelude::*;

use crate::rng::{gen_lowercase, gen_range_i32};
use crate::util::{explosion_path, explosion_path_spec, explosion_target_dt, explosion_target_dt_spec, Draw};

verus! {

/// Depth of the carrot's body.
pub const CARROT_Z_IDX: i32 = 26;

/// Depth of scattered carrot debris; targeted debris sits one deeper.
pub const CARROT_DEBRIS_Z_IDX: i32 = 25;

/// Foreground of the carrot root and its debris: a strong orange.
pub const CARROT_FG: u8 = 202;

/// Foreground of the carrot greens.
pub const GREENS_FG: u8 = 22;

/// Radius of the disc into which debris scatters.
pub const SCATTER_RADIUS: i32 = 15;

/// A carrot: a three-tile sprite that can appear gradually, hang
/// upside down, lose its head, and burst into lettered debris.
pub struct Carrot {
    pub t: usize,
    pub pos: (i32, i32),
    pub appear: Option<usize>,
    pub upside_down: bool,
    pub no_head: bool,
    pub target_letters: Vec<(char, (i32, i32))>,
    pub debris: Vec<(usize, char, (i32, i32), bool)>,
}

/// The `i`-th of the three body tiles (top to bottom): root tip or
/// greens first depending on orientation; a headless carrot hides its
/// top tile below everything.
pub open spec fn carrot_body_tile(c: Carrot, i: int) -> (Draw, (i32, i32)) {
    if c.upside_down {
        if i == 0 {
            (
                Draw {
                    item: '^',
                    fg_color: Option::Some(CARROT_FG),
                    bg_color: Option::None,
                    z_idx: if c.no_head {
                        -1i32
                    } else {
                        CARROT_Z_IDX
                    },
                    italic: false,
                },
                c.pos,
            )
        } else if i == 1 {
            (
                Draw {
                    item: 'H',
                    fg_color: Option::Some(CARROT_FG),
                    bg_color: Option::None,
                    z_idx: CARROT_Z_IDX,
                    italic: false,
                },
                (c.pos.0, (c.pos.1 + 1) as i32),
            )
        } else {
            (
                Draw {
                    item: 'M',
                    fg_color: Option::Some(GREENS_FG),
                    bg_color: Option::None,
                    z_idx: CARROT_Z_IDX,
                    italic: false,
                },
                (c.pos.0, (c.pos.1 + 2) as i32),
            )
        }
    } else {
        if i == 0 {
            (
                Draw {
                    item: 'W',
                    fg_color: Option::Some(GREENS_FG),
                    bg_color: Option::None,
                    z_idx: CARROT_Z_IDX,
                    italic: false,
                },
                c.pos,
            )
        } else if i == 1 {
            (
                Draw {
                    item: 'H',
                    fg_color: Option::Some(CARROT_FG),
                    bg_color: Option::None,
                    z_idx: CARROT_Z_IDX,
                    italic: false,
                },
                (c.pos.0, (c.pos.1 + 1) as i32),
            )
        } else {
            (
                Draw {
                    item: 'V',
                    fg_color: Option::Some(CARROT_FG),
                    bg_color: Option::None,
                    z_idx: CARROT_Z_IDX,
                    italic: false,
                },
                (c.pos.0, (c.pos.1 + 2) as i32),
            )
        }
    }
}

/// How many body tiles show: none before `appear`, then one more per
/// tick up to all three.
pub open spec fn carrot_body_count(c: Carrot) -> int {
    match c.appear {
        Option::Some(t0) => vstd::math::min(3, c.t - t0),
        Option::None => 0,
    }
}

pub open spec fn carrot_body_upto(c: Carrot, n: int) -> Seq<(Draw, (i32, i32))>
    decreases n,
{
    if n <= 0 {
        Seq::empty()
    } else {
        carrot_body_upto(c, n - 1).push(carrot_body_tile(c, n - 1))
    }
}

/// The tile of one piece of debris: its letter, in flight along the
/// arc from the carrot to its scatter target.
pub open spec fn carrot_debris_tile(c: Carrot, item: (usize, char, (i32, i32), bool)) -> (
    Draw,
    (i32, i32),
) {
    (
        Draw {
            item: item.1,
            fg_color: Option::Some(CARROT_FG),
            bg_color: Option::None,
            z_idx: (CARROT_DEBRIS_Z_IDX + (if item.3 {
                1int
            } else {
                0int
            })) as i32,
            italic: false,
        },
        explosion_path_spec((c.t - item.0) as usize, item.2, c.pos),
    )
}

pub open spec fn carrot_debris_upto(c: Carrot, n: int) -> Seq<(Draw, (i32, i32))>
    decreases n,
{
    if n <= 0 {
        Seq::empty()
    } else {
        carrot_debris_upto(c, n - 1).push(carrot_debris_tile(c, c.debris@[n - 1]))
    }
}

/// All tiles of the carrot: the visible body tiles, then the debris.
pub open spec fn carrot_tiles(c: Carrot) -> Seq<(Draw, (i32, i32))> {
    carrot_body_upto(c, carrot_body_count(c)) + carrot_debris_upto(c, c.debris@.len() as int)
}

/// Which debris the next tick keeps: targeted letters stay forever;
/// stray debris is dropped once twice its arc time has passed.
pub open spec fn debris_kept(
    debris: Seq<(usize, char, (i32, i32), bool)>,
    n: int,
    t: usize,
    pos: (i32, i32),
) -> Seq<(usize, char, (i32, i32), bool)>
    decreases n,
{
    if n <= 0 {
        Seq::empty()
    } else {
        debris_kept(debris, n - 1, t, pos) + (if debris[n - 1].3 || 2 * explosion_target_dt_spec(
            debris[n - 1].2,
            pos,
        ) > t - debris[n - 1].0 {
            seq![debris[n - 1]]
        } else {
            Seq::empty()
        })
    }
}

impl Carrot {
    /// Machine-safe positions and timestamps: the carrot sits on
    /// screen, nothing is stamped from the future, and debris and
    /// target letters lie within scatter range of the carrot.
    pub open spec fn wf(self) -> bool {
        &&& 0 <= self.pos.0 <= 100_000
        &&& 0 <= self.pos.1 <= 100_000
        &&& match self.appear {
            Option::Some(t0) => t0 <= self.t,
            Option::None => true,
        }
        &&& forall|i: int|
            0 <= i < self.debris@.len() ==> {
                let d = #[trigger] self.debris@[i];
                d.0 <= self.t && -10_000 <= d.2.0 - self.pos.0 <= 10_000 && -10_000 <= d.2.1
                    - self.pos.1 <= 10_000
            }
        &&& forall|i: int|
            0 <= i < self.target_letters@.len() ==> {
                let l = #[trigger] self.target_letters@[i];
                -10_000 <= l.1.0 - self.pos.0 <= 10_000 && -10_000 <= l.1.1 - self.pos.1 <= 10_000
            }
    }

    pub fn new(pos: (i32, i32)) -> (r: Self)
        requires
            0 <= pos.0 <= 100_000,
            0 <= pos.1 <= 100_000,
        ensures
            r.wf(),
            r == (Carrot {
                t: 0usize,
                pos,
                appear: Option::<usize>::None,
                upside_down: false,
                no_head: false,
                target_letters: r.target_letters,
                debris: r.debris,
            }),
            r.target_letters@ == Seq::<(char, (i32, i32))>::empty(),
            r.debris@ == Seq::<(usize, char, (i32, i32), bool)>::empty(),
    {
        Carrot {
            t: 0,
            pos,
            appear: Option::None,
            upside_down: false,
            no_head: false,
            target_letters: Vec::new(),
            debris: Vec::new(),
        }
    }

    /// Move the carrot, which must keep its debris within scatter
    /// range.
    pub fn set_pos(&mut self, pos: (i32, i32))
        requires
            old(self).wf(),
            0 <= pos.0 <= 100_000,
            0 <= pos.1 <= 100_000,
            forall|i: int|
                0 <= i < old(self).debris@.len() ==> {
                    let d = #[trigger] old(self).debris@[i];
                    -10_000 <= d.2.0 - pos.0 <= 10_000 && -10_000 <= d.2.1 - pos.1 <= 10_000
                },
            forall|i: int|
                0 <= i < old(self).target_letters@.len() ==> {
                    let l = #[trigger] old(self).target_letters@[i];
                    -10_000 <= l.1.0 - pos.0 <= 10_000 && -10_000 <= l.1.1 - pos.1 <= 10_000
                },
        ensures
            final(self).wf(),
            *final(self) == (Carrot { pos, ..*old(self) }),
    {
        self.pos = pos;
    }

    /// Hide the carrot's top tile below everything.
    pub fn delete_head(&mut self)
        requires
            old(self).wf(),
        ensures
            final(self).wf(),
            *final(self) == (Carrot { no_head: true, ..*old(self) }),
    {
        self.no_head = true;
    }

    /// Start showing the body, one tile per tick from now.
    pub fn appear(&mut self)
        requires
            old(self).wf(),
        ensures
            final(self).wf(),
            *final(self) == (Carrot { appear: Option::Some(old(self).t), ..*old(self) }),
    {
        self.appear = Option::Some(self.t);
    }

    pub fn make_upside_down(&mut self)
        requires
            old(self).wf(),
        ensures
            final(self).wf(),
            *final(self) == (Carrot { upside_down: true, ..*old(self) }),
    {
        self.upside_down = true;
    }

    /// Replace the letters that scattering will aim at their targets.
    pub fn set_target_letters(&mut self, letters: Vec<(char, (i32, i32))>)
        requires
            old(self).wf(),
            forall|i: int|
                0 <= i < letters@.len() ==> {
                    let l = #[trigger] letters@[i];
                    -10_000 <= l.1.0 - old(self).pos.0 <= 10_000 && -10_000 <= l.1.1 - old(
                        self,
                    ).pos.1 <= 10_000
                },
        ensures
            final(self).wf(),
            *final(self) == (Carrot { target_letters: letters, ..*old(self) }),
    {
        self.target_letters = letters;
    }

    /// Burst: fifteen random letters land in the scatter disc around
    /// the carrot (never off the top or left edge of the screen), and
    /// one pending target letter, if any, is launched at its target.
    #[verifier::loop_isolation(false)]
    pub fn scatter(&mut self, rng: &mut rand::rngs::StdRng)
        requires
            old(self).wf(),
        ensures
            final(self).wf(),
            final(self).t == old(self).t,
            final(self).pos == old(self).pos,
            final(self).appear == old(self).appear,
            final(self).upside_down == old(self).upside_down,
            final(self).no_head == old(self).no_head,
            final(self).target_letters@ == if old(self).target_letters@.len() > 0 {
                old(self).target_letters@.drop_last()
            } else {
                old(self).target_letters@
            },
            final(self).debris@.len() == old(self).debris@.len() + 15 + (
            if old(self).target_letters@.len() > 0 {
                1int
            } else {
                0int
            }),
            forall|i: int|
                0 <= i < old(self).debris@.len() ==> final(self).debris@[i] == old(self).debris@[i],
            forall|i: int|
                old(self).debris@.len() <= i < old(self).debris@.len() + 15 ==> {
                    let d = #[trigger] final(self).debris@[i];
                    let dx = d.2.0 - old(self).pos.0;
                    let dy = d.2.1 - old(self).pos.1;
                    d.0 == old(self).t && 'a' <= d.1 <= 'z' && dx * dx + dy * dy <= SCATTER_RADIUS
                        * SCATTER_RADIUS && d.2.0 >= 0 && d.2.1 >= 0 && !d.3
                },
            old(self).target_letters@.len() > 0 ==> final(self).debris@.last() == (
                old(self).t,
                old(self).target_letters@.last().0,
                old(self).target_letters@.last().1,
                true,
            ),
    {
        let mut k: u32 = 0;
        while k < 15
            invariant
                k <= 15,
                self.wf(),
                self.t == old(self).t,
                self.pos == old(self).pos,
                self.appear == old(self).appear,
                self.upside_down == old(self).upside_down,
                self.no_head == old(self).no_head,
                self.target_letters == old(self).target_letters,
                self.debris@.len() == old(self).debris@.len() + k,
                forall|i: int|
                    0 <= i < old(self).debris@.len() ==> self.debris@[i] == old(self).debris@[i],
                forall|i: int|
                    old(self).debris@.len() <= i < self.debris@.len() ==> {
                        let d = #[trigger] self.debris@[i];
                        let dx = d.2.0 - old(self).pos.0;
                        let dy = d.2.1 - old(self).pos.1;
                        d.0 == old(self).t && 'a' <= d.1 <= 'z' && dx * dx + dy * dy
                            <= SCATTER_RADIUS * SCATTER_RADIUS && d.2.0 >= 0 && d.2.1 >= 0 && !d.3
                    },
            decreases 15 - k,
        {
            let mut dx: i32 = 0;
            let mut dy: i32 = 0;
            let mut tries: u32 = 0;
            while tries < 10_000
                invariant
                    dx * dx + dy * dy <= SCATTER_RADIUS * SCATTER_RADIUS,
                    self.pos.0 + dx >= 0,
                    self.pos.1 + dy >= 0,
                    -15 <= dx <= 15,
                    -15 <= dy <= 15,
                decreases 10_000 - tries,
            {
                let cx = gen_range_i32(rng, -SCATTER_RADIUS, SCATTER_RADIUS);
                let cy = gen_range_i32(rng, -SCATTER_RADIUS, SCATTER_RADIUS);
                proof {
                    assert(0 <= cx * cx <= 225 && 0 <= cy * cy <= 225) by (nonlinear_arith)
                        requires
                            -15 <= cx <= 15,
                            -15 <= cy <= 15,
                    ;
                }
                if cx * cx + cy * cy <= SCATTER_RADIUS * SCATTER_RADIUS && self.pos.0 + cx >= 0
                    && self.pos.1 + cy >= 0 {
                    dx = cx;
                    dy = cy;
                    break ;
                }
                tries = tries + 1;
            }
            let letter = gen_lowercase(rng);
            self.debris.push((self.t, letter, (self.pos.0 + dx, self.pos.1 + dy), false));
            k = k + 1;
        }
        let popped = self.target_letters.pop();
        match popped {
            Option::Some((c, pos)) => {
                self.debris.push((self.t, c, pos, true));
            },
            Option::None => {},
        }
    }

    /// One tick: note the time and drop the stray debris whose arc has
    /// long finished; targeted letters stay.
    #[verifier::loop_isolation(false)]
    pub fn tick(&mut self, t: usize)
        requires
            old(self).wf(),
            old(self).t <= t,
        ensures
            final(self).wf(),
            *final(self) == (Carrot {
                t,
                debris: final(self).debris,
                ..*old(self)
            }),
            final(self).debris@ == debris_kept(
                old(self).debris@,
                old(self).debris@.len() as int,
                t,
                old(self).pos,
            ),
    {
        self.t = t;
        let mut olditems: Vec<(usize, char, (i32, i32), bool)> = Vec::new();
        core::mem::swap(&mut olditems, &mut self.debris);
        let n = olditems.len();
        let mut i: usize = 0;
        proof {
            assert(self.debris@ =~= debris_kept(olditems@, 0, t, old(self).pos));
        }
        while i < n
            invariant
                i <= n,
                n == olditems@.len(),
                olditems@ == old(self).debris@,
                self.t == t,
                self.pos == old(self).pos,
                self.appear == old(self).appear,
                self.upside_down == old(self).upside_down,
                self.no_head == old(self).no_head,
                self.target_letters == old(self).target_letters,
                self.debris@ == debris_kept(olditems@, i as int, t, old(self).pos),
                forall|k: int|
                    0 <= k < self.debris@.len() ==> {
                        let d = #[trigger] self.debris@[k];
                        d.0 <= t && -10_000 <= d.2.0 - old(self).pos.0 <= 10_000 && -10_000
                            <= d.2.1 - old(self).pos.1 <= 10_000
                    },
            decreases n - i,
        {
            let item = olditems[i];
            let keep = item.3 || 2 * explosion_target_dt(item.2, self.pos) > self.t - item.0;
            if keep {
                self.debris.push(item);
            }
            proof {
                assert(self.debris@ =~= debris_kept(olditems@, i as int + 1, t, old(self).pos));
            }
            i = i + 1;
        }
    }

    /// All tiles of the carrot: the body tiles shown so far, then each
    /// piece of debris along its arc.
    #[verifier::loop_isolation(false)]
    pub fn tiles(&self) -> (out: Vec<(Draw, (i32, i32))>)
        requires
            self.wf(),
        ensures
            out@ == carrot_tiles(*self),
    {
        let mut out: Vec<(Draw, (i32, i32))> = Vec::new();
        let shown: u32 = match self.appear {
            Option::Some(t0) => {
                let dt = self.t - t0;
                if dt >= 3 {
                    3
                } else {
                    dt as u32
                }
            },
            Option::None => 0,
        };
        let mut b: u32 = 0;
        proof {
            assert(out@ =~= carrot_body_upto(*self, 0));
        }
        while b < shown
            invariant
                b <= shown,
                shown == carrot_body_count(*self),
                out@ == carrot_body_upto(*self, b as int),
            decreases shown - b,
        {
            let tile = if self.upside_down {
                if b == 0 {
                    let z = if self.no_head {
                        -1
                    } else {
                        CARROT_Z_IDX
                    };
                    (orange('^', z), self.pos)
                } else if b == 1 {
                    (orange('H', CARROT_Z_IDX), (self.pos.0, self.pos.1 + 1))
                } else {
                    (green('M', CARROT_Z_IDX), (self.pos.0, self.pos.1 + 2))
                }
            } else {
                if b == 0 {
                    (green('W', CARROT_Z_IDX), self.pos)
                } else if b == 1 {
                    (orange('H', CARROT_Z_IDX), (self.pos.0, self.pos.1 + 1))
                } else {
                    (orange('V', CARROT_Z_IDX), (self.pos.0, self.pos.1 + 2))
                }
            };
            out.push(tile);
            b = b + 1;
        }
        let ghost body = carrot_body_upto(*self, carrot_body_count(*self));
        let n = self.debris.len();
        let mut i: usize = 0;
        proof {
            assert(out@ =~= body + carrot_debris_upto(*self, 0));
        }
        while i < n
            invariant
                i <= n,
                n == self.debris@.len(),
                out@ == body + carrot_debris_upto(*self, i as int),
            decreases n - i,
        {
            let item = self.debris[i];
            let z = CARROT_DEBRIS_Z_IDX + (if item.3 {
                1
            } else {
                0
            });
            let pos = explosion_path(self.t - item.0, item.2, self.pos);
            out.push((orange(item.1, z), pos));
            i = i + 1;
        }
        proof {
            assert(out@ =~= carrot_tiles(*self));
        }
        out
    }
}

/// A tile in the carrot's orange.
fn orange(c: char, z: i32) -> (r: Draw)
    ensures
        r == (Draw {
            item: c,
            fg_color: Option::Some(CARROT_FG),
            bg_color: Option::<u8>::None,
            z_idx: z,
            italic: false,
        }),
{
    Draw { item: c, fg_color: Option::Some(CARROT_FG), bg_color: Option::None, z_idx: z, italic: false }
}

/// A tile in the carrot's green.
fn green(c: char, z: i32) -> (r: Draw)
    ensures
        r == (Draw {
            item: c,
            fg_color: Option::Some(GREENS_FG),
            bg_color: Option::<u8>::None,
            z_idx: z,
            italic: false,
        }),
{
    Draw { item: c, fg_color: Option::Some(GREENS_FG), bg_color: Option::None, z_idx: z, italic: false }
}

} // verus!
