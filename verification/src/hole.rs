use vstd::prelude::*;

use crate::util::{
    explosion_path, explosion_path_spec, move_per_radiate, move_per_radiate_spec, Draw, Radiate,
};
use crate::water::{block_has_normal, perturb_grid, ParticleType, Water};

verus! {

/// Depth of the hole's rim.
pub const HOLE_Z_IDX: i32 = 20;

/// Depth of dirt resting beside the hole, and of dirt still flying.
pub const DIRT_Z_IDX: i32 = 6;

pub const FLYING_DIRT_Z_IDX: i32 = 28;

/// Foreground of the hole and its dirt: earth brown.
pub const DIRT_FG: u8 = 94;

/// Foregrounds of the kazoo: red mouthpiece, bright body, and the dim
/// body it blinks to.
pub const KAZOO_RED: u8 = 160;

pub const KAZOO_BRIGHT: u8 = 231;

pub const KAZOO_DIM: u8 = 102;

pub open spec fn hole_row_chars(i: int) -> Seq<char> {
    if i == 0 {
        " ===L"@
    } else if i == 1 {
        "H   H"@
    } else if i == 2 {
        "HL _H"@
    } else {
        " === "@
    }
}

fn hole_row(i: usize) -> (r: &'static str)
    requires
        i < 4,
    ensures
        r@ == hole_row_chars(i as int),
        r@.len() == 5,
{
    if i == 0 {
        let s = " ===L";
        proof {
            reveal_strlit(" ===L");
        }
        s
    } else if i == 1 {
        let s = "H   H";
        proof {
            reveal_strlit("H   H");
        }
        s
    } else if i == 2 {
        let s = "HL _H";
        proof {
            reveal_strlit("HL _H");
        }
        s
    } else {
        let s = " === ";
        proof {
            reveal_strlit(" === ");
        }
        s
    }
}

/// The first `upto` columns of one rim row: every character is drawn
/// except a space standing on an absolute corner of the screen-fixed
/// corner columns and rows (both coordinates in `{0, 3}`).
pub open spec fn hole_row_tiles(row: Seq<char>, upto: int, x0: int, yabs: int) -> Seq<
    (Draw, (i32, i32)),
>
    decreases upto,
{
    if upto <= 0 {
        Seq::empty()
    } else {
        hole_row_tiles(row, upto - 1, x0, yabs) + (if (x0 + upto - 1 == 0 || x0 + upto - 1 == 3)
            && (yabs == 0 || yabs == 3) && row[upto - 1] == ' ' {
            Seq::empty()
        } else {
            seq![
                (
                    Draw {
                        item: row[upto - 1],
                        fg_color: Option::Some(DIRT_FG),
                        bg_color: Option::None,
                        z_idx: HOLE_Z_IDX,
                        italic: false,
                    },
                    ((x0 + upto - 1) as i32, yabs as i32),
                ),
            ]
        })
    }
}

/// A hole in the ground: a four-row rim sprite, dirt queued to be
/// flung and dirt in flight, and possibly a kazoo rising out of it.
pub struct Hole {
    pub t: usize,
    pub pos: (i32, i32),
    pub queued_dirt: Vec<(bool, char, (i32, i32))>,
    pub flung_dirt: Vec<(usize, bool, char, (i32, i32))>,
    pub kazoo: Option<(usize, (i32, i32))>,
    pub radiate: Option<Radiate>,
}

/// Where a piece of flung dirt stands, and whether it has come to
/// rest: it flies along the arc from the hole's center to its target;
/// once it rests there, it stays, and untargeted dirt is additionally
/// pushed by any radial wave.
pub open spec fn debris_pos_spec(h: Hole, item: (usize, bool, char, (i32, i32))) -> (
    (i32, i32),
    bool,
) {
    let p0 = explosion_path_spec(
        (h.t - item.0) as usize,
        item.3,
        ((h.pos.0 + 2) as i32, (h.pos.1 + 2) as i32),
    );
    let resting = p0.0 == item.3.0 && p0.1 == item.3.1;
    let p = if !item.1 {
        move_per_radiate_spec(h.radiate, h.t, p0)
    } else {
        p0
    };
    (p, resting)
}

/// The rim tiles of the first `rows` sprite rows.
pub open spec fn hole_partial_base(h: Hole, rows: int) -> Seq<(Draw, (i32, i32))>
    decreases rows,
{
    if rows <= 0 {
        Seq::empty()
    } else {
        hole_partial_base(h, rows - 1) + hole_row_tiles(
            hole_row_chars(rows - 1),
            5,
            h.pos.0 as int,
            h.pos.1 + (rows - 1),
        )
    }
}

/// The rim tiles of the hole: its four sprite rows.
pub open spec fn hole_base_tiles(h: Hole) -> Seq<(Draw, (i32, i32))> {
    hole_partial_base(h, 4)
}

/// The tile of one piece of flung dirt: its character at its arc
/// position, resting dirt below the scene and flying dirt above it,
/// targeted dirt one deeper still.
pub open spec fn hole_flung_tile(h: Hole, item: (usize, bool, char, (i32, i32))) -> (
    Draw,
    (i32, i32),
) {
    (
        Draw {
            item: item.2,
            fg_color: Option::Some(DIRT_FG),
            bg_color: Option::None,
            z_idx: ((if debris_pos_spec(h, item).1 {
                DIRT_Z_IDX as int
            } else {
                FLYING_DIRT_Z_IDX as int
            }) + (if item.1 {
                1int
            } else {
                0int
            })) as i32,
            italic: false,
        },
        debris_pos_spec(h, item).0,
    )
}

/// The tiles of the first `n` pieces of flung dirt.
pub open spec fn hole_flung_tiles(h: Hole, n: int) -> Seq<(Draw, (i32, i32))>
    decreases n,
{
    if n <= 0 {
        Seq::empty()
    } else {
        hole_flung_tiles(h, n - 1).push(hole_flung_tile(h, h.flung_dirt@[n - 1]))
    }
}

/// The `i`-th piece of the kazoo: character, offset from the kazoo's
/// arc position, and its bright and dim colors.
pub open spec fn kazoo_item_spec(i: int) -> (char, (int, int), u8, u8) {
    if i == 0 {
        ('/', (0int, 0int), KAZOO_RED, KAZOO_RED)
    } else if i == 1 {
        ('\\', (-1int, -1int), KAZOO_BRIGHT, KAZOO_DIM)
    } else if i == 2 {
        ('|', (0int, -1int), KAZOO_BRIGHT, KAZOO_DIM)
    } else if i == 3 {
        ('/', (1int, -1int), KAZOO_BRIGHT, KAZOO_DIM)
    } else if i == 4 {
        ('-', (-1int, 0int), KAZOO_BRIGHT, KAZOO_DIM)
    } else if i == 5 {
        ('-', (-2int, 0int), KAZOO_BRIGHT, KAZOO_DIM)
    } else if i == 6 {
        ('-', (1int, 0int), KAZOO_BRIGHT, KAZOO_DIM)
    } else if i == 7 {
        ('-', (2int, 0int), KAZOO_BRIGHT, KAZOO_DIM)
    } else if i == 8 {
        ('/', (-1int, 1int), KAZOO_BRIGHT, KAZOO_DIM)
    } else if i == 9 {
        ('|', (0int, 1int), KAZOO_BRIGHT, KAZOO_DIM)
    } else {
        ('\\', (1int, 1int), KAZOO_BRIGHT, KAZOO_DIM)
    }
}

/// The first `n` kazoo tiles, when a kazoo is rising: it flies along
/// the arc from the hole's center toward its perch and blinks between
/// its bright and dim colors every thirty ticks.
pub open spec fn hole_kazoo_tiles(h: Hole, n: int) -> Seq<(Draw, (i32, i32))>
    decreases n,
{
    match h.kazoo {
        Option::None => Seq::empty(),
        Option::Some((kt, kpos)) => {
            if n <= 0 {
                Seq::empty()
            } else {
                let base = explosion_path_spec(
                    (h.t - kt) as usize,
                    kpos,
                    ((h.pos.0 + 2) as i32, (h.pos.1 + 2) as i32),
                );
                let item = kazoo_item_spec(n - 1);
                hole_kazoo_tiles(h, n - 1).push(
                    (
                        Draw {
                            item: item.0,
                            fg_color: Option::Some(
                                if (h.t / 30) % 2 == 0 {
                                    item.2
                                } else {
                                    item.3
                                },
                            ),
                            bg_color: Option::None,
                            z_idx: HOLE_Z_IDX,
                            italic: false,
                        },
                        ((base.0 + item.1.0) as i32, (base.1 + item.1.1) as i32),
                    ),
                )
            }
        },
    }
}

/// All tiles of the hole: the rim, the flung dirt, and the kazoo.
pub open spec fn hole_tiles(h: Hole) -> Seq<(Draw, (i32, i32))> {
    hole_base_tiles(h) + hole_flung_tiles(h, h.flung_dirt@.len() as int) + hole_kazoo_tiles(h, 11)
}

/// The dirt kept by `maybe_dunk` and the water grid it leaves, after
/// the first `n` pieces: dirt resting on open water sinks and splashes
/// (the block under it is perturbed); everything else stays.
pub open spec fn dunked(
    flung: Seq<(usize, bool, char, (i32, i32))>,
    n: int,
    h: Hole,
    g: Seq<ParticleType>,
    w: int,
    hh: int,
) -> (Seq<(usize, bool, char, (i32, i32))>, Seq<ParticleType>)
    decreases n,
{
    if n <= 0 {
        (Seq::empty(), g)
    } else {
        let prev = dunked(flung, n - 1, h, g, w, hh);
        let item = flung[n - 1];
        let pr = debris_pos_spec(h, item);
        if pr.1 && 1 <= pr.0.0 <= w / 2 && 1 <= pr.0.1 <= hh / 2 && block_has_normal(
            prev.1,
            w,
            pr.0.0 - 1,
            pr.0.1 - 1,
        ) {
            (prev.0, perturb_grid(prev.1, w, pr.0.0 - 1, pr.0.1 - 1))
        } else {
            (prev.0.push(item), prev.1)
        }
    }
}

impl Hole {
    /// Machine-safe position and contents: the hole sits near the
    /// screen, nothing is stamped from the future, and all dirt and
    /// the kazoo lie within arc range of the hole's center.
    pub open spec fn wf(self) -> bool {
        &&& -9_000 <= self.pos.0 <= 9_000
        &&& -9_000 <= self.pos.1 <= 9_000
        &&& match self.kazoo {
            Option::Some((kt, kp)) => kt <= self.t && -10_000 <= kp.0 - (self.pos.0 + 2) <= 10_000
                && -10_000 <= kp.1 - (self.pos.1 + 2) <= 10_000,
            Option::None => true,
        }
        &&& match self.radiate {
            Option::Some(rad) => rad.t <= self.t && -1_000_000 <= rad.pos.0 <= 1_000_000
                && -1_000_000 <= rad.pos.1 <= 1_000_000,
            Option::None => true,
        }
        &&& forall|i: int|
            0 <= i < self.flung_dirt@.len() ==> {
                let d = #[trigger] self.flung_dirt@[i];
                d.0 <= self.t && -10_000 <= d.3.0 - (self.pos.0 + 2) <= 10_000 && -10_000 <= d.3.1
                    - (self.pos.1 + 2) <= 10_000
            }
        &&& forall|i: int|
            0 <= i < self.queued_dirt@.len() ==> {
                let d = #[trigger] self.queued_dirt@[i];
                -10_000 <= d.2.0 - (self.pos.0 + 2) <= 10_000 && -10_000 <= d.2.1 - (self.pos.1
                    + 2) <= 10_000
            }
    }

    pub fn new(pos: (i32, i32)) -> (r: Self)
        requires
            -9_000 <= pos.0 <= 9_000,
            -9_000 <= pos.1 <= 9_000,
        ensures
            r.wf(),
            r.t == 0,
            r.pos == pos,
            r.queued_dirt@ == Seq::<(bool, char, (i32, i32))>::empty(),
            r.flung_dirt@ == Seq::<(usize, bool, char, (i32, i32))>::empty(),
            r.kazoo is None,
            r.radiate is None,
    {
        Hole {
            t: 0,
            pos,
            queued_dirt: Vec::new(),
            flung_dirt: Vec::new(),
            kazoo: Option::None,
            radiate: Option::None,
        }
    }

    /// Whether a click at `pos` lands on the hole's five-by-four rim.
    pub fn contains_click(&self, pos: (i32, i32)) -> (r: bool)
        requires
            self.wf(),
            -1_000_000 <= pos.0 <= 1_000_000,
            -1_000_000 <= pos.1 <= 1_000_000,
        ensures
            r == (0 <= pos.0 - self.pos.0 < 5 && 0 <= pos.1 - self.pos.1 < 4),
    {
        let dx = pos.0 - self.pos.0;
        let dy = pos.1 - self.pos.1;
        0 <= dx && dx < 5 && 0 <= dy && dy < 4
    }

    /// Queue dirt to be flung, piece by piece.
    pub fn add_dirt(&mut self, dirt: Vec<(bool, char, (i32, i32))>)
        requires
            old(self).wf(),
            forall|i: int|
                0 <= i < dirt@.len() ==> {
                    let d = #[trigger] dirt@[i];
                    -10_000 <= d.2.0 - (old(self).pos.0 + 2) <= 10_000 && -10_000 <= d.2.1 - (old(
                        self,
                    ).pos.1 + 2) <= 10_000
                },
        ensures
            final(self).wf(),
            *final(self) == (Hole { queued_dirt: dirt, ..*old(self) }),
    {
        self.queued_dirt = dirt;
    }

    /// Fling the next queued piece of dirt, and say whether one was
    /// left; when the queue has run dry, the kazoo starts rising
    /// instead.
    pub fn fling(&mut self) -> (r: bool)
        requires
            old(self).wf(),
            -10_000 <= 24 - (old(self).pos.0 + 2) <= 10_000,
            -10_000 <= 5 - (old(self).pos.1 + 2) <= 10_000,
        ensures
            final(self).wf(),
            r == (old(self).queued_dirt@.len() > 0),
            final(self).t == old(self).t,
            final(self).pos == old(self).pos,
            final(self).radiate == old(self).radiate,
            old(self).queued_dirt@.len() > 0 ==> final(self).queued_dirt@ == old(
                self,
            ).queued_dirt@.drop_last() && final(self).flung_dirt@ == old(self).flung_dirt@.push(
                (
                    old(self).t,
                    old(self).queued_dirt@.last().0,
                    old(self).queued_dirt@.last().1,
                    old(self).queued_dirt@.last().2,
                ),
            ) && final(self).kazoo == old(self).kazoo,
            old(self).queued_dirt@.len() == 0 ==> final(self).kazoo == Option::Some(
                (old(self).t, (24i32, 5i32)),
            ) && final(self).queued_dirt@ == old(self).queued_dirt@ && final(self).flung_dirt@
                == old(self).flung_dirt@,
    {
        let popped = self.queued_dirt.pop();
        match popped {
            Option::Some(dirt) => {
                self.flung_dirt.push((self.t, dirt.0, dirt.1, dirt.2));
                proof {
                    let d = old(self).queued_dirt@.last();
                    assert(dirt == d);
                    assert(self.queued_dirt@ =~= old(self).queued_dirt@.drop_last());
                    assert(self.flung_dirt@ =~= old(self).flung_dirt@.push(
                        (old(self).t, d.0, d.1, d.2),
                    ));
                }
                true
            },
            Option::None => {
                self.kazoo = Option::Some((self.t, (24, 5)));
                false
            },
        }
    }

    /// Move the rising kazoo's perch, if one is rising.
    pub fn set_kazoo_pos(&mut self, pos: (i32, i32))
        requires
            old(self).wf(),
            -10_000 <= pos.0 - (old(self).pos.0 + 2) <= 10_000,
            -10_000 <= pos.1 - (old(self).pos.1 + 2) <= 10_000,
        ensures
            final(self).wf(),
            final(self).kazoo == match old(self).kazoo {
                Option::Some((kt, _)) => Option::Some((kt, pos)),
                Option::None => Option::<(usize, (i32, i32))>::None,
            },
            *final(self) == (Hole { kazoo: final(self).kazoo, ..*old(self) }),
    {
        match self.kazoo {
            Option::Some((kt, _)) => {
                self.kazoo = Option::Some((kt, pos));
            },
            Option::None => {},
        }
    }

    /// Start a radial wave from `pos`, pushing loose dirt outward.
    pub fn radiate(&mut self, pos: (i32, i32))
        requires
            old(self).wf(),
            -1_000_000 <= pos.0 <= 1_000_000,
            -1_000_000 <= pos.1 <= 1_000_000,
        ensures
            final(self).wf(),
            *final(self) == (Hole {
                radiate: Option::Some(Radiate { t: old(self).t, pos }),
                ..*old(self)
            }),
    {
        self.radiate = Option::Some(Radiate { t: self.t, pos });
    }

    /// Advance the hole's clock.
    pub fn tick(&mut self, t: usize)
        requires
            old(self).wf(),
            old(self).t <= t,
        ensures
            final(self).wf(),
            *final(self) == (Hole { t, ..*old(self) }),
    {
        self.t = t;
    }

    /// Where one piece of flung dirt stands now, and whether it rests.
    pub fn debris_pos(&self, dirt: &(usize, bool, char, (i32, i32))) -> (r: ((i32, i32), bool))
        requires
            self.wf(),
            dirt.0 <= self.t,
            -10_000 <= dirt.3.0 - (self.pos.0 + 2) <= 10_000,
            -10_000 <= dirt.3.1 - (self.pos.1 + 2) <= 10_000,
        ensures
            r == debris_pos_spec(*self, *dirt),
    {
        let origin = (self.pos.0 + 2, self.pos.1 + 2);
        let p0 = explosion_path(self.t - dirt.0, dirt.3, origin);
        let resting = p0.0 == dirt.3.0 && p0.1 == dirt.3.1;
        let p = if !dirt.1 {
            move_per_radiate(&self.radiate, self.t, p0)
        } else {
            p0
        };
        (p, resting)
    }

    /// Drop every piece of dirt that has come to rest on open water
    /// into it, perturbing the water where it sinks; the rest stays.
    #[verifier::loop_isolation(false)]
    pub fn maybe_dunk(&mut self, water: &mut Water)
        requires
            old(self).wf(),
            old(water).wf(),
        ensures
            final(self).wf(),
            final(water).wf(),
            final(water).width == old(water).width,
            final(water).height == old(water).height,
            *final(self) == (Hole { flung_dirt: final(self).flung_dirt, ..*old(self) }),
            ({
                let dn = dunked(
                    old(self).flung_dirt@,
                    old(self).flung_dirt@.len() as int,
                    *old(self),
                    old(water).grid@,
                    old(water).width as int,
                    old(water).height as int,
                );
                final(self).flung_dirt@ == dn.0 && final(water).grid@ == dn.1
            }),
    {
        let ghost h0 = *old(self);
        let ghost g0 = old(water).grid@;
        let ghost wi = old(water).width as int;
        let ghost hhi = old(water).height as int;
        let mut olditems: Vec<(usize, bool, char, (i32, i32))> = Vec::new();
        core::mem::swap(&mut olditems, &mut self.flung_dirt);
        let n = olditems.len();
        let mut i: usize = 0;
        proof {
            assert(self.flung_dirt@ =~= dunked(olditems@, 0, h0, g0, wi, hhi).0);
        }
        while i < n
            invariant
                i <= n,
                n == olditems@.len(),
                olditems@ == old(self).flung_dirt@,
                self.t == old(self).t,
                self.pos == old(self).pos,
                self.queued_dirt == old(self).queued_dirt,
                self.kazoo == old(self).kazoo,
                self.radiate == old(self).radiate,
                water.wf(),
                water.width == old(water).width,
                water.height == old(water).height,
                self.flung_dirt@ == dunked(olditems@, i as int, h0, g0, wi, hhi).0,
                water.grid@ == dunked(olditems@, i as int, h0, g0, wi, hhi).1,
                forall|k: int|
                    0 <= k < self.flung_dirt@.len() ==> {
                        let d = #[trigger] self.flung_dirt@[k];
                        d.0 <= old(self).t && -10_000 <= d.3.0 - (old(self).pos.0 + 2) <= 10_000
                            && -10_000 <= d.3.1 - (old(self).pos.1 + 2) <= 10_000
                    },
            decreases n - i,
        {
            let item = olditems[i];
            let pr = self.debris_pos(&item);
            proof {
                assert(debris_pos_spec(*self, item) == debris_pos_spec(h0, item));
            }
            if pr.1 && water.is_wet(pr.0) {
                water.perturb(pr.0.0 - 1, pr.0.1 - 1);
            } else {
                self.flung_dirt.push(item);
            }
            i = i + 1;
        }
    }

    /// All tiles of the hole: the rim sprite, each piece of flung dirt
    /// at its arc position, and the kazoo if one is rising.
    #[verifier::loop_isolation(false)]
    pub fn tiles(&self) -> (out: Vec<(Draw, (i32, i32))>)
        requires
            self.wf(),
        ensures
            out@ == hole_tiles(*self),
    {
        let mut out: Vec<(Draw, (i32, i32))> = Vec::new();
        let mut row: usize = 0;
        proof {
            assert(out@ =~= hole_partial_base(*self, 0));
        }
        while row < 4
            invariant
                row <= 4,
                out@ == hole_partial_base(*self, row as int),
            decreases 4 - row,
        {
            let rs = hole_row(row);
            let yabs = self.pos.1 + row as i32;
            let ghost pre = out@;
            let mut col: usize = 0;
            proof {
                assert(out@ =~= pre + hole_row_tiles(rs@, 0, self.pos.0 as int, yabs as int));
            }
            while col < 5
                invariant
                    col <= 5,
                    rs@ == hole_row_chars(row as int),
                    rs@.len() == 5,
                    yabs == self.pos.1 + row,
                    out@ == pre + hole_row_tiles(rs@, col as int, self.pos.0 as int, yabs as int),
                decreases 5 - col,
            {
                let c = rs.get_char(col);
                let xabs = self.pos.0 + col as i32;
                if !((xabs == 0 || xabs == 3) && (yabs == 0 || yabs == 3) && c == ' ') {
                    let tile = Draw {
                        item: c,
                        fg_color: Option::Some(DIRT_FG),
                        bg_color: Option::None,
                        z_idx: HOLE_Z_IDX,
                        italic: false,
                    };
                    out.push((tile, (xabs, yabs)));
                }
                proof {
                    assert(out@ =~= pre + hole_row_tiles(
                        rs@,
                        col as int + 1,
                        self.pos.0 as int,
                        yabs as int,
                    ));
                }
                col = col + 1;
            }
            row = row + 1;
        }
        let ghost base = hole_base_tiles(*self);
        proof {
            assert(out@ =~= base + hole_flung_tiles(*self, 0));
        }
        let n = self.flung_dirt.len();
        let mut i: usize = 0;
        while i < n
            invariant
                i <= n,
                n == self.flung_dirt@.len(),
                out@ == base + hole_flung_tiles(*self, i as int),
            decreases n - i,
        {
            let item = self.flung_dirt[i];
            let pr = self.debris_pos(&item);
            let z = (if pr.1 {
                DIRT_Z_IDX
            } else {
                FLYING_DIRT_Z_IDX
            }) + (if item.1 {
                1
            } else {
                0
            });
            let tile = Draw {
                item: item.2,
                fg_color: Option::Some(DIRT_FG),
                bg_color: Option::None,
                z_idx: z,
                italic: false,
            };
            out.push((tile, pr.0));
            proof {
                assert((tile, pr.0) == hole_flung_tile(*self, self.flung_dirt@[i as int]));
                assert(out@ =~= base + hole_flung_tiles(*self, i as int + 1));
            }
            i = i + 1;
        }
        let ghost upper = base + hole_flung_tiles(*self, self.flung_dirt@.len() as int);
        proof {
            assert(out@ =~= upper + hole_kazoo_tiles(*self, 0));
        }
        match self.kazoo {
            Option::None => {
                proof {
                    assert(out@ =~= hole_tiles(*self));
                }
            },
            Option::Some((kt, kpos)) => {
                let bright = (self.t / 30) % 2 == 0;
                let kbase = explosion_path(
                    self.t - kt,
                    kpos,
                    (self.pos.0 + 2, self.pos.1 + 2),
                );
                let mut ki: usize = 0;
                while ki < 11
                    invariant
                        ki <= 11,
                        bright == ((self.t / 30) % 2 == 0),
                        self.kazoo == Option::Some((kt, kpos)),
                        kbase == explosion_path_spec(
                            (self.t - kt) as usize,
                            kpos,
                            ((self.pos.0 + 2) as i32, (self.pos.1 + 2) as i32),
                        ),
                        -1_010_000 <= kbase.0 <= 1_010_000,
                        -3_500_000 <= kbase.1 <= 3_500_000,
                        out@ == upper + hole_kazoo_tiles(*self, ki as int),
                    decreases 11 - ki,
                {
                    let item = kazoo_piece(ki);
                    let fg = if bright {
                        item.2
                    } else {
                        item.3
                    };
                    let tile = Draw {
                        item: item.0,
                        fg_color: Option::Some(fg),
                        bg_color: Option::None,
                        z_idx: HOLE_Z_IDX,
                        italic: false,
                    };
                    out.push((tile, (kbase.0 + item.1.0, kbase.1 + item.1.1)));
                    proof {
                        assert(out@ =~= upper + hole_kazoo_tiles(*self, ki as int + 1));
                    }
                    ki = ki + 1;
                }
                proof {
                    assert(out@ =~= hole_tiles(*self));
                }
            },
        }
        out
    }
}

/// The `i`-th piece of the kazoo, as executable data.
fn kazoo_piece(i: usize) -> (r: (char, (i32, i32), u8, u8))
    requires
        i < 11,
    ensures
        r.0 == kazoo_item_spec(i as int).0,
        r.1.0 == kazoo_item_spec(i as int).1.0,
        r.1.1 == kazoo_item_spec(i as int).1.1,
        r.2 == kazoo_item_spec(i as int).2,
        r.3 == kazoo_item_spec(i as int).3,
{
    if i == 0 {
        ('/', (0, 0), KAZOO_RED, KAZOO_RED)
    } else if i == 1 {
        ('\\', (-1, -1), KAZOO_BRIGHT, KAZOO_DIM)
    } else if i == 2 {
        ('|', (0, -1), KAZOO_BRIGHT, KAZOO_DIM)
    } else if i == 3 {
        ('/', (1, -1), KAZOO_BRIGHT, KAZOO_DIM)
    } else if i == 4 {
        ('-', (-1, 0), KAZOO_BRIGHT, KAZOO_DIM)
    } else if i == 5 {
        ('-', (-2, 0), KAZOO_BRIGHT, KAZOO_DIM)
    } else if i == 6 {
        ('-', (1, 0), KAZOO_BRIGHT, KAZOO_DIM)
    } else if i == 7 {
        ('-', (2, 0), KAZOO_BRIGHT, KAZOO_DIM)
    } else if i == 8 {
        ('/', (-1, 1), KAZOO_BRIGHT, KAZOO_DIM)
    } else if i == 9 {
        ('|', (0, 1), KAZOO_BRIGHT, KAZOO_DIM)
    } else {
        ('\\', (1, 1), KAZOO_BRIGHT, KAZOO_DIM)
    }
}

} // verus!
