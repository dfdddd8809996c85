use vstd::prelude::*;

use crate::sprite::{masked_row_tiles, push_masked_row};
use crate::util::Draw;

verus! {

/// Depth at which the train is drawn.
pub const TRAIN_Z_IDX: i32 = 21;

/// Foreground of the train: the lightest gray of the palette ramp.
pub const TRAIN_FG: u8 = 255;

/// Columns of the engine, cabin and caboose sprites.
pub const ENGINE_COLS: u32 = 47;

pub const CABIN_COLS: u32 = 40;

pub const CABOOSE_COLS: u32 = 46;

pub open spec fn engine_row_chars(i: int) -> Seq<char> {
    if i == 0 {
        "      _---------------------------------------="@
    } else if i == 1 {
        "  __/_2 ||  o o o o o o o o o o o o o o o  || |"@
    } else {
        "(___---______________________________---______|"@
    }
}

pub open spec fn cabin_row_chars(i: int) -> Seq<char> {
    if i == 0 {
        "---------------------------------------="@
    } else if i == 1 {
        " ||  o o o o o o o o o o o o o o o  || |"@
    } else {
        "______---_____________________---______|"@
    }
}

pub open spec fn caboose_row_chars(i: int) -> Seq<char> {
    if i == 0 {
        "---------------------------------------_      "@
    } else if i == 1 {
        " ||  o o o o o o o o o o o o o o o  || c_\\__  "@
    } else {
        "______---______________________________---___)"@
    }
}

fn engine_row(i: usize) -> (r: &'static str)
    requires
        i < 3,
    ensures
        r@ == engine_row_chars(i as int),
        r@.len() == ENGINE_COLS,
{
    if i == 0 {
        let s = "      _---------------------------------------=";
        proof {
            reveal_strlit("      _---------------------------------------=");
        }
        s
    } else if i == 1 {
        let s = "  __/_2 ||  o o o o o o o o o o o o o o o  || |";
        proof {
            reveal_strlit("  __/_2 ||  o o o o o o o o o o o o o o o  || |");
        }
        s
    } else {
        let s = "(___---______________________________---______|";
        proof {
            reveal_strlit("(___---______________________________---______|");
        }
        s
    }
}

fn cabin_row(i: usize) -> (r: &'static str)
    requires
        i < 3,
    ensures
        r@ == cabin_row_chars(i as int),
        r@.len() == CABIN_COLS,
{
    if i == 0 {
        let s = "---------------------------------------=";
        proof {
            reveal_strlit("---------------------------------------=");
        }
        s
    } else if i == 1 {
        let s = " ||  o o o o o o o o o o o o o o o  || |";
        proof {
            reveal_strlit(" ||  o o o o o o o o o o o o o o o  || |");
        }
        s
    } else {
        let s = "______---_____________________---______|";
        proof {
            reveal_strlit("______---_____________________---______|");
        }
        s
    }
}

fn caboose_row(i: usize) -> (r: &'static str)
    requires
        i < 3,
    ensures
        r@ == caboose_row_chars(i as int),
        r@.len() == CABOOSE_COLS,
{
    if i == 0 {
        let s = "---------------------------------------_      ";
        proof {
            reveal_strlit("---------------------------------------_      ");
        }
        s
    } else if i == 1 {
        let s = " ||  o o o o o o o o o o o o o o o  || c_\\__  ";
        proof {
            reveal_strlit(" ||  o o o o o o o o o o o o o o o  || c_\\__  ");
        }
        s
    } else {
        let s = "______---______________________________---___)";
        proof {
            reveal_strlit("______---______________________________---___)");
        }
        s
    }
}

/// Total columns of a train of `len` cars: an engine and a caboose with
/// cabins between them.
pub open spec fn train_total_cols(len: int) -> int {
    ENGINE_COLS + CABIN_COLS * (len - 2) + CABOOSE_COLS
}

/// A train of `len` cars rolling leftward along a track row.
pub struct Train {
    pub len: u32,
    pub y: u32,
    pub x: i32,
    pub orig_x: i32,
}

/// The sprite row of car `car` (out of `len`): engine first, caboose
/// last, cabins between.
pub open spec fn car_row_chars(car: int, len: int, row: int) -> Seq<char> {
    if car == 0 {
        engine_row_chars(row)
    } else if car == len - 1 {
        caboose_row_chars(row)
    } else {
        cabin_row_chars(row)
    }
}

/// Transparent-space mask of car `car`: the engine's first six columns
/// and the caboose's last six columns let the background through.
pub open spec fn car_keep_lo(car: int, len: int) -> int {
    if car == 0 {
        6
    } else {
        0
    }
}

pub open spec fn car_keep_hi(car: int, len: int) -> int {
    if car == len - 1 {
        CABOOSE_COLS - 6
    } else {
        1000
    }
}

/// Horizontal offset of car `car` from the head of the train.
pub open spec fn car_x_off(car: int) -> int {
    if car > 0 {
        ENGINE_COLS + (car - 1) * CABIN_COLS
    } else {
        0
    }
}

/// All tiles of car `car`: its three sprite rows, masked and placed.
pub open spec fn train_car_tiles(t: Train, car: int) -> Seq<(Draw, (i32, i32))> {
    let x0 = t.x + car_x_off(car);
    let lo = car_keep_lo(car, t.len as int);
    let hi = car_keep_hi(car, t.len as int);
    masked_row_tiles(
        car_row_chars(car, t.len as int, 0),
        car_row_chars(car, t.len as int, 0).len() as int,
        lo,
        hi,
        x0,
        t.y as int,
        Option::Some(TRAIN_FG),
        TRAIN_Z_IDX,
    ) + masked_row_tiles(
        car_row_chars(car, t.len as int, 1),
        car_row_chars(car, t.len as int, 1).len() as int,
        lo,
        hi,
        x0,
        t.y + 1,
        Option::Some(TRAIN_FG),
        TRAIN_Z_IDX,
    ) + masked_row_tiles(
        car_row_chars(car, t.len as int, 2),
        car_row_chars(car, t.len as int, 2).len() as int,
        lo,
        hi,
        x0,
        t.y + 2,
        Option::Some(TRAIN_FG),
        TRAIN_Z_IDX,
    )
}

/// The tiles of the first `cars` cars, head first.
pub open spec fn train_tiles_upto(t: Train, cars: int) -> Seq<(Draw, (i32, i32))>
    decreases cars,
{
    if cars <= 0 {
        Seq::empty()
    } else {
        train_tiles_upto(t, cars - 1) + train_car_tiles(t, cars - 1)
    }
}

/// The train one tick later: two columns leftward, or back at the
/// start once it is well past the left edge.
pub open spec fn train_ticked(t: Train) -> Train {
    let moved = t.x - 2;
    if train_total_cols(t.len as int) + moved < -300 {
        Train { x: t.orig_x, ..t }
    } else {
        Train { x: moved as i32, ..t }
    }
}

impl Train {
    /// Well-formedness: a machine-safe car count and position.
    pub open spec fn wf(self) -> bool {
        &&& 2 <= self.len <= 100
        &&& -1_000_000 <= self.x <= 1_000_000
        &&& -1_000_000 <= self.orig_x <= 1_000_000
        &&& self.y <= 1_000_000
    }

    pub fn new(len: u32, x: i32, y: u32) -> (r: Self)
        requires
            2 <= len <= 100,
            -1_000_000 <= x <= 1_000_000,
            y <= 1_000_000,
        ensures
            r == (Train { len, y, x, orig_x: x }),
            r.wf(),
    {
        Train { len, x, y, orig_x: x }
    }

    /// Put the train back at its starting position.
    pub fn reset(&mut self)
        ensures
            *final(self) == (Train { x: old(self).orig_x, ..*old(self) }),
    {
        self.x = self.orig_x;
    }

    /// The column of the train's head.
    pub fn left_x(&self) -> (r: i32)
        ensures
            r == self.x,
    {
        self.x
    }

    /// The column just past the train's tail.
    pub fn right_x(&self) -> (r: i32)
        requires
            self.wf(),
        ensures
            r == self.x + train_total_cols(self.len as int),
    {
        self.x + (ENGINE_COLS + CABIN_COLS * (self.len - 2) + CABOOSE_COLS) as i32
    }

    /// One tick: the train rolls two columns leftward, and is put back
    /// at its starting position once it is well past the left edge.
    pub fn tick(&mut self)
        requires
            old(self).wf(),
        ensures
            final(self).wf(),
            *final(self) == train_ticked(*old(self)),
    {
        self.x = self.x - 2;
        let total = (ENGINE_COLS + CABIN_COLS * (self.len - 2) + CABOOSE_COLS) as i32;
        if total + self.x < -300 {
            self.reset();
        }
    }

    /// All tiles of the train, car by car from the engine.
    #[verifier::loop_isolation(false)]
    pub fn tiles(&self) -> (r: Vec<(Draw, (i32, i32))>)
        requires
            self.wf(),
        ensures
            r@ == train_tiles_upto(*self, self.len as int),
    {
        let mut r: Vec<(Draw, (i32, i32))> = Vec::new();
        proof {
            assert(r@ =~= train_tiles_upto(*self, 0));
        }
        let mut car: u32 = 0;
        while car < self.len
            invariant
                car <= self.len,
                r@ == train_tiles_upto(*self, car as int),
            decreases self.len - car,
        {
            let x_off: u32 = if car > 0 {
                ENGINE_COLS + (car - 1) * CABIN_COLS
            } else {
                0
            };
            let x0 = self.x + x_off as i32;
            let lo: usize = if car == 0 {
                6
            } else {
                0
            };
            let hi: usize = if car == self.len - 1 {
                (CABOOSE_COLS - 6) as usize
            } else {
                1000
            };
            let row0 = if car == 0 {
                engine_row(0)
            } else if car == self.len - 1 {
                caboose_row(0)
            } else {
                cabin_row(0)
            };
            let row1 = if car == 0 {
                engine_row(1)
            } else if car == self.len - 1 {
                caboose_row(1)
            } else {
                cabin_row(1)
            };
            let row2 = if car == 0 {
                engine_row(2)
            } else if car == self.len - 1 {
                caboose_row(2)
            } else {
                cabin_row(2)
            };
            push_masked_row(&mut r, row0, lo, hi, x0, self.y as i32, Option::Some(TRAIN_FG), TRAIN_Z_IDX);
            push_masked_row(&mut r, row1, lo, hi, x0, self.y as i32 + 1, Option::Some(TRAIN_FG), TRAIN_Z_IDX);
            push_masked_row(&mut r, row2, lo, hi, x0, self.y as i32 + 2, Option::Some(TRAIN_FG), TRAIN_Z_IDX);
            proof {
                assert(r@ =~= train_tiles_upto(*self, car as int + 1));
            }
            car = car + 1;
        }
        r
    }
}

} // verus!
