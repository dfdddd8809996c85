use vstd::prelude::*;

use crate::util::Draw;

verus! {

/// The tiles of the first `upto` columns of one sprite row placed at
/// `(x0 + column, y)`: every character becomes a tile (spaces are
/// opaque and overwrite what lies below), except that a space whose
/// column lies outside `[lo, hi)` is transparent and dropped.
pub open spec fn masked_row_tiles(
    row: Seq<char>,
    upto: int,
    lo: int,
    hi: int,
    x0: int,
    y: int,
    fg: Option<u8>,
    z: i32,
) -> Seq<(Draw, (i32, i32))>
    decreases upto,
{
    if upto <= 0 {
        Seq::empty()
    } else {
        masked_row_tiles(row, upto - 1, lo, hi, x0, y, fg, z) + (if row[upto - 1] == ' ' && (upto
            - 1 < lo || upto - 1 >= hi) {
            Seq::empty()
        } else {
            seq![
                (
                    Draw {
                        item: row[upto - 1],
                        fg_color: fg,
                        bg_color: Option::None,
                        z_idx: z,
                        italic: false,
                    },
                    ((x0 + upto - 1) as i32, y as i32),
                ),
            ]
        })
    }
}

/// Append one sprite row's tiles to `out`.
#[verifier::loop_isolation(false)]
pub fn push_masked_row(
    out: &mut Vec<(Draw, (i32, i32))>,
    row: &str,
    lo: usize,
    hi: usize,
    x0: i32,
    y: i32,
    fg: Option<u8>,
    z: i32,
)
    requires
        row@.len() <= 1000,
        -1_000_000_000 <= x0 <= 1_000_000_000,
        -1_000_000_000 <= y <= 1_000_000_000,
    ensures
        final(out)@ == old(out)@ + masked_row_tiles(
            row@,
            row@.len() as int,
            lo as int,
            hi as int,
            x0 as int,
            y as int,
            fg,
            z,
        ),
{
    let n = row.unicode_len();
    let mut i: usize = 0;
    proof {
        assert(out@ =~= old(out)@ + masked_row_tiles(
            row@,
            0,
            lo as int,
            hi as int,
            x0 as int,
            y as int,
            fg,
            z,
        ));
    }
    while i < n
        invariant
            i <= n,
            n == row@.len(),
            out@ == old(out)@ + masked_row_tiles(
                row@,
                i as int,
                lo as int,
                hi as int,
                x0 as int,
                y as int,
                fg,
                z,
            ),
        decreases n - i,
    {
        let c = row.get_char(i);
        let ghost pre = out@;
        if !(c == ' ' && (i < lo || i >= hi)) {
            let tile = Draw {
                item: c,
                fg_color: fg,
                bg_color: Option::None,
                z_idx: z,
                italic: false,
            };
            out.push((tile, (x0 + i as i32, y)));
        }
        proof {
            assert(out@ =~= old(out)@ + masked_row_tiles(
                row@,
                i as int + 1,
                lo as int,
                hi as int,
                x0 as int,
                y as int,
                fg,
                z,
            ));
        }
        i = i + 1;
    }
}

/// One colorless tile of the given character and depth at `(x, y)`.
pub open spec fn plain_tile(c: char, z: i32, x: int, y: int) -> (Draw, (i32, i32)) {
    (
        Draw { item: c, fg_color: Option::None, bg_color: Option::None, z_idx: z, italic: false },
        (x as i32, y as i32),
    )
}

/// A horizontal run: `count` copies of `c` at `(x0 + i, y)`.
pub open spec fn hrun_tiles(c: char, z: i32, count: int, x0: int, y: int) -> Seq<(Draw, (i32, i32))>
    decreases count,
{
    if count <= 0 {
        Seq::empty()
    } else {
        hrun_tiles(c, z, count - 1, x0, y).push(plain_tile(c, z, x0 + count - 1, y))
    }
}

/// A vertical run: one `c` at `(x, ybase - dy)` for each `dy` in
/// `[lo, hi)`, from `lo` upward.
pub open spec fn vrun_tiles(c: char, z: i32, lo: int, hi: int, x: int, ybase: int) -> Seq<
    (Draw, (i32, i32)),
>
    decreases hi - lo,
{
    if hi <= lo {
        Seq::empty()
    } else {
        vrun_tiles(c, z, lo, hi - 1, x, ybase).push(plain_tile(c, z, x, ybase - (hi - 1)))
    }
}

/// Append a horizontal run of tiles to `out`.
#[verifier::loop_isolation(false)]
pub fn push_hrun(out: &mut Vec<(Draw, (i32, i32))>, c: char, z: i32, count: u32, x0: i32, y: i32)
    requires
        count <= 1_000_000,
        -1_000_000_000 <= x0,
        x0 + count <= 1_000_000_000,
        -1_000_000_000 <= y <= 1_000_000_000,
    ensures
        final(out)@ == old(out)@ + hrun_tiles(c, z, count as int, x0 as int, y as int),
{
    proof {
        assert(out@ =~= old(out)@ + hrun_tiles(c, z, 0, x0 as int, y as int));
    }
    let mut i: u32 = 0;
    while i < count
        invariant
            i <= count,
            out@ == old(out)@ + hrun_tiles(c, z, i as int, x0 as int, y as int),
        decreases count - i,
    {
        let tile = Draw {
            item: c,
            fg_color: Option::None,
            bg_color: Option::None,
            z_idx: z,
            italic: false,
        };
        out.push((tile, (x0 + i as i32, y)));
        i = i + 1;
    }
}

/// Append a vertical run of tiles to `out`.
#[verifier::loop_isolation(false)]
pub fn push_vrun(out: &mut Vec<(Draw, (i32, i32))>, c: char, z: i32, lo: i32, hi: i32, x: i32, ybase: i32)
    requires
        -1_000_000 <= lo <= 1_000_000,
        -1_000_000 <= hi <= 1_000_000,
        -1_000_000_000 <= x <= 1_000_000_000,
        -1_000_000_000 <= ybase <= 1_000_000_000,
    ensures
        final(out)@ == old(out)@ + vrun_tiles(c, z, lo as int, hi as int, x as int, ybase as int),
{
    proof {
        assert(out@ =~= old(out)@ + vrun_tiles(c, z, lo as int, lo as int, x as int, ybase as int));
    }
    let mut dy: i32 = lo;
    if hi <= lo {
        return ;
    }
    while dy < hi
        invariant
            lo <= dy <= hi,
            out@ == old(out)@ + vrun_tiles(c, z, lo as int, dy as int, x as int, ybase as int),
        decreases hi - dy,
    {
        let tile = Draw {
            item: c,
            fg_color: Option::None,
            bg_color: Option::None,
            z_idx: z,
            italic: false,
        };
        out.push((tile, (x, ybase - dy)));
        dy = dy + 1;
    }
}

} // verus!
