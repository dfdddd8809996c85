use vstd::prelude::*;

use crate::util::Draw;

verus! {

/// Depth at which the track is drawn.
pub const TRACK_Z_IDX: i32 = 20;

/// The tile of track column `x`: a sleeper joint every fourth column,
/// rail metal everywhere else, in light gray.
pub open spec fn track_tile(y: u32, x: int) -> (Draw, (i32, i32)) {
    (
        Draw {
            item: if x % 4 == 1 {
                '+'
            } else {
                '='
            },
            fg_color: Option::Some(252u8),
            bg_color: Option::None,
            z_idx: TRACK_Z_IDX,
            italic: false,
        },
        (x as i32, y as i32),
    )
}

/// The whole row of track tiles.
pub open spec fn track_tiles_seq(t: Track) -> Seq<(Draw, (i32, i32))> {
    Seq::new(t.width as nat, |k: int| track_tile(t.y, k))
}

/// A horizontal track: one row of rail tiles across the scene.
pub struct Track {
    pub y: u32,
    pub width: u32,
}

impl Track {
    pub fn new(y: u32, width: u32) -> (r: Self)
        ensures
            r == (Track { y, width }),
    {
        Track { y, width }
    }

    /// The track's full row of tiles, left to right.
    #[verifier::loop_isolation(false)]
    pub fn tiles(&self) -> (r: Vec<(Draw, (i32, i32))>)
        requires
            self.y <= 1_000_000,
            self.width <= 1_000_000,
        ensures
            r@ == track_tiles_seq(*self),
    {
        let mut r: Vec<(Draw, (i32, i32))> = Vec::new();
        let mut x: u32 = 0;
        while x < self.width
            invariant
                x <= self.width,
                r@.len() == x,
                forall|k: int| 0 <= k < r@.len() ==> #[trigger] r@[k] == track_tile(self.y, k),
            decreases self.width - x,
        {
            let item = if x % 4 == 1 {
                '+'
            } else {
                '='
            };
            let tile = Draw {
                item,
                fg_color: Option::Some(252),
                bg_color: Option::None,
                z_idx: TRACK_Z_IDX,
                italic: false,
            };
            r.push((tile, (x as i32, self.y as i32)));
            x = x + 1;
        }
        proof {
            assert(r@ =~= track_tiles_seq(*self));
        }
        r
    }
}

} // verus!
