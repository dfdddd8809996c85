use vstd::prelude::*;

use crate::ansi::{
    cell_chars, down_escape, down_string, fg_reset_string, fg_string, frame_chars, goto_escape,
    goto_string, italic_string, left_escape, left_string, push_char, row_chars, rows_chars,
    style_reset_string,
};
use crate::util::{draw_like, Draw};

verus! {

/// Whether two canvas cells hold the same drawable (two empty cells
/// match; background colors are ignored, as everywhere).
pub open spec fn cell_like(a: Option<Draw>, b: Option<Draw>) -> bool {
    match (a, b) {
        (Some(x), Some(y)) => draw_like(x, y),
        (None, None) => true,
        _ => false,
    }
}

/// Whether any cell of the current canvas differs from the previous one.
pub open spec fn frames_differ(cur: Seq<Option<Draw>>, prev: Seq<Option<Draw>>) -> bool {
    exists|i: int| 0 <= i < cur.len() && !cell_like(cur[i], prev[i])
}

/// The occlusion-combine rule of one cell: into an empty cell the tile
/// is stored; an occupant is replaced only by a strictly deeper tile,
/// so on ties the first-drawn tile wins.
pub open spec fn place(cell: Option<Draw>, d: Draw) -> Option<Draw> {
    match cell {
        Option::None => Option::Some(d),
        Option::Some(cur) => if cur.z_idx < d.z_idx {
            Option::Some(d)
        } else {
            Option::Some(cur)
        },
    }
}

/// One tile applied to the canvas: a tile whose position lies outside
/// the grid is dropped; one inside goes through `place`.
pub open spec fn apply_tile(
    c: Seq<Option<Draw>>,
    w: int,
    h: int,
    t: (Draw, (i32, i32)),
) -> Seq<Option<Draw>> {
    let (d, (x, y)) = t;
    if 0 <= x < w && 0 <= y < h {
        c.update(y * w + x, place(c[y * w + x], d))
    } else {
        c
    }
}

/// A list of tiles applied to the canvas in order.
pub open spec fn apply_tiles(
    c: Seq<Option<Draw>>,
    w: int,
    h: int,
    ts: Seq<(Draw, (i32, i32))>,
) -> Seq<Option<Draw>>
    decreases ts.len(),
{
    if ts.len() == 0 {
        c
    } else {
        apply_tiles(apply_tile(c, w, h, ts[0]), w, h, ts.drop_first())
    }
}

/// The compositor: a fixed-size grid of optional tiles drawn into this
/// frame, and the grid of the previously flushed frame.
pub struct Window {
    pub width: u32,
    pub height: u32,
    pub canvas: Vec<Option<Draw>>,
    pub prev_canvas: Vec<Option<Draw>>,
}

impl Window {
    /// Well-formedness: dimensions in machine-safe range and two full
    /// canvases.
    pub open spec fn wf(self) -> bool {
        &&& 1 <= self.width <= 4096
        &&& 1 <= self.height <= 4096
        &&& self.canvas@.len() == self.width * self.height
        &&& self.prev_canvas@.len() == self.width * self.height
    }

    /// An empty compositor: both canvases entirely empty.
    pub fn new(width: u32, height: u32) -> (r: Self)
        requires
            1 <= width <= 4096,
            1 <= height <= 4096,
        ensures
            r.wf(),
            r.width == width,
            r.height == height,
            forall|i: int| 0 <= i < r.canvas@.len() ==> (#[trigger] r.canvas@[i]) is None,
            forall|i: int| 0 <= i < r.prev_canvas@.len() ==> (#[trigger] r.prev_canvas@[i]) is None,
    {
        proof {
            crate::water::lemma_grid_index(width - 1, height - 1, width as int, height as int);
        }
        let n = (width as usize) * (height as usize);
        let canvas: Vec<Option<Draw>> = vec![Option::None; n];
        let prev_canvas: Vec<Option<Draw>> = vec![Option::None; n];
        Window { width, height, canvas, prev_canvas }
    }

    pub fn width(&self) -> (r: u32)
        ensures
            r == self.width,
    {
        self.width
    }

    pub fn height(&self) -> (r: u32)
        ensures
            r == self.height,
    {
        self.height
    }

    /// Begin a frame: the canvas drawn so far becomes the previous
    /// frame, and a fresh, empty current canvas is allocated. Called
    /// exactly once per frame, before any `draw`.
    pub fn reset(&mut self)
        requires
            old(self).wf(),
        ensures
            final(self).wf(),
            final(self).width == old(self).width,
            final(self).height == old(self).height,
            final(self).prev_canvas@ == old(self).canvas@,
            final(self).canvas@.len() == old(self).canvas@.len(),
            forall|i: int| 0 <= i < final(self).canvas@.len() ==> (#[trigger] final(self).canvas@[i]) is None,
    {
        core::mem::swap(&mut self.prev_canvas, &mut self.canvas);
        proof {
            crate::water::lemma_grid_index(
                self.width - 1,
                self.height - 1,
                self.width as int,
                self.height as int,
            );
        }
        let n = (self.width as usize) * (self.height as usize);
        self.canvas = vec![Option::None; n];
    }

    /// Draw a tile at `pos` (which callers must have bounds-checked):
    /// an empty cell takes the tile; an occupied one is replaced only
    /// if the new tile lies strictly deeper in the stack, so the
    /// first-drawn tile wins ties.
    pub fn draw(&mut self, draw: Draw, pos: (u32, u32))
        requires
            old(self).wf(),
            pos.0 < old(self).width,
            pos.1 < old(self).height,
        ensures
            final(self).wf(),
            final(self).width == old(self).width,
            final(self).height == old(self).height,
            final(self).prev_canvas@ == old(self).prev_canvas@,
            final(self).canvas@ == old(self).canvas@.update(
                pos.1 * old(self).width + pos.0,
                place(old(self).canvas@[pos.1 * old(self).width + pos.0], draw),
            ),
    {
        proof {
            crate::water::lemma_grid_index(
                pos.0 as int,
                pos.1 as int,
                self.width as int,
                self.height as int,
            );
        }
        let i = (pos.1 as usize) * (self.width as usize) + (pos.0 as usize);
        let cell = match &self.canvas[i] {
            Option::None => Option::Some(draw),
            Option::Some(cur) => if cur.z_idx < draw.z_idx {
                Option::Some(draw)
            } else {
                Option::Some(cur.clone())
            },
        };
        self.canvas[i] = cell;
    }

    /// Draw a whole list of positioned tiles in order, dropping those
    /// whose position lies outside the grid.
    #[verifier::loop_isolation(false)]
    pub fn draw_all(&mut self, tiles: &Vec<(Draw, (i32, i32))>)
        requires
            old(self).wf(),
        ensures
            final(self).wf(),
            final(self).width == old(self).width,
            final(self).height == old(self).height,
            final(self).prev_canvas@ == old(self).prev_canvas@,
            final(self).canvas@ == apply_tiles(
                old(self).canvas@,
                old(self).width as int,
                old(self).height as int,
                tiles@,
            ),
    {
        let ghost c0 = self.canvas@;
        let ghost wi = self.width as int;
        let ghost hi = self.height as int;
        let mut k: usize = 0;
        proof {
            assert(tiles@.skip(0) =~= tiles@);
        }
        while k < tiles.len()
            invariant
                k <= tiles@.len(),
                self.wf(),
                self.width == old(self).width,
                self.height == old(self).height,
                self.prev_canvas@ == old(self).prev_canvas@,
                apply_tiles(c0, wi, hi, tiles@) == apply_tiles(self.canvas@, wi, hi, tiles@.skip(k as int)),
            decreases tiles@.len() - k,
        {
            let t = &tiles[k];
            let d = t.0.clone();
            let x = t.1.0;
            let y = t.1.1;
            let ghost pre = self.canvas@;
            if 0 <= x && x < self.width as i32 && 0 <= y && y < self.height as i32 {
                self.draw(d, (x as u32, y as u32));
            }
            proof {
                assert(self.canvas@ == apply_tile(pre, wi, hi, tiles@[k as int]));
                assert(tiles@.skip(k as int).drop_first() =~= tiles@.skip(k as int + 1));
                assert(tiles@.skip(k as int)[0] == tiles@[k as int]);
            }
            k = k + 1;
        }
        proof {
            assert(tiles@.skip(tiles@.len() as int) =~= Seq::<(Draw, (i32, i32))>::empty());
            assert(apply_tiles(self.canvas@, wi, hi, tiles@.skip(tiles@.len() as int))
                == self.canvas@);
        }
    }

    /// Compose the frame to be written to the output sink. When no cell
    /// differs from the previous frame, nothing is to be written and the
    /// result is `None`. Otherwise the whole grid is repainted: the
    /// cursor is sent home, every cell writes its styled character (or a
    /// blank for an empty cell), and a cursor-reposition sequence stands
    /// between rows. The full repaint on any change is intentional,
    /// trading redundant output for simplicity.
    #[verifier::loop_isolation(false)]
    pub fn render(&self) -> (r: Option<String>)
        requires
            self.wf(),
        ensures
            r is None <==> !frames_differ(self.canvas@, self.prev_canvas@),
            match r {
                Option::Some(s) => s@ == frame_chars(
                    self.canvas@,
                    self.width as int,
                    self.height as int,
                ),
                Option::None => true,
            },
    {
        if !self.any_change() {
            return Option::None;
        }
        let w = self.width;
        let h = self.height;
        let ghost c = self.canvas@;
        let ghost wi = w as int;
        let mut s = goto_string(1, 1);
        proof {
            assert(s@ =~= goto_escape(1, 1) + rows_chars(c, wi, 0));
        }
        let mut y: u32 = 0;
        while y < h
            invariant
                y <= h,
                s@ == goto_escape(1, 1) + rows_chars(c, wi, y as int),
            decreases h - y,
        {
            let mut x: u32 = 0;
            proof {
                assert(s@ =~= goto_escape(1, 1) + rows_chars(c, wi, y as int) + row_chars(
                    c,
                    wi,
                    y as int,
                    0,
                ));
            }
            while x < w
                invariant
                    y < h,
                    x <= w,
                    s@ == goto_escape(1, 1) + rows_chars(c, wi, y as int) + row_chars(
                        c,
                        wi,
                        y as int,
                        x as int,
                    ),
                decreases w - x,
            {
                proof {
                    crate::water::lemma_grid_index(x as int, y as int, wi, self.height as int);
                }
                let i = (y as usize) * (w as usize) + (x as usize);
                let ghost s_pre = s@;
                match &self.canvas[i] {
                    Option::Some(d) => {
                        s.append(style_reset_string().as_str());
                        if d.italic {
                            s.append(italic_string().as_str());
                        }
                        match d.fg_color {
                            Option::Some(n) => s.append(fg_string(n).as_str()),
                            Option::None => s.append(fg_reset_string().as_str()),
                        }
                        push_char(&mut s, d.item);
                    },
                    Option::None => {
                        push_char(&mut s, ' ');
                    },
                }
                proof {
                    assert(s@ =~= s_pre + cell_chars(c[y as int * wi + x as int]));
                    assert(s@ =~= goto_escape(1, 1) + rows_chars(c, wi, y as int) + row_chars(
                        c,
                        wi,
                        y as int,
                        x as int + 1,
                    ));
                }
                x = x + 1;
            }
            let ghost s_pre = s@;
            s.append(left_string(w as u16).as_str());
            s.append(down_string(1).as_str());
            proof {
                assert(s@ =~= s_pre + left_escape(w as u16) + down_escape(1));
                assert(s@ =~= goto_escape(1, 1) + rows_chars(c, wi, y as int + 1));
            }
            y = y + 1;
        }
        Option::Some(s)
    }

    /// Whether any cell of the current canvas differs from the previous
    /// frame's.
    #[verifier::loop_isolation(false)]
    fn any_change(&self) -> (r: bool)
        requires
            self.wf(),
        ensures
            r == frames_differ(self.canvas@, self.prev_canvas@),
    {
        let n = self.canvas.len();
        let mut i: usize = 0;
        let mut found = false;
        while i < n
            invariant
                i <= n,
                n == self.canvas@.len(),
                found == exists|j: int|
                    0 <= j < i && !cell_like(self.canvas@[j], self.prev_canvas@[j]),
            decreases n - i,
        {
            if !cells_match(&self.canvas[i], &self.prev_canvas[i]) {
                found = true;
            }
            i = i + 1;
        }
        found
    }
}

/// Whether two canvas cells hold the same drawable.
fn cells_match(a: &Option<Draw>, b: &Option<Draw>) -> (r: bool)
    ensures
        r == cell_like(*a, *b),
{
    match (a, b) {
        (Option::Some(x), Option::Some(y)) => *x == *y,
        (Option::None, Option::None) => true,
        _ => false,
    }
}

/// Depth resolution at one cell: drawing `a` into an empty cell and then
/// `b` over it leaves `b` exactly when `b` lies strictly deeper in the
/// stack than `a`; on an equal or lesser depth the first-drawn `a` stays.
pub proof fn lemma_depth_resolution(a: Draw, b: Draw)
    ensures
        b.z_idx > a.z_idx ==> place(place(Option::None, a), b) == Option::Some(b),
        b.z_idx <= a.z_idx ==> place(place(Option::None, a), b) == Option::Some(a),
{
}

/// A frame in which every cell matches the previous frame is not
/// rendered at all: with both canvases empty (as after `reset` with an
/// empty previous frame and no `draw` calls), `render` returns `None`
/// and nothing reaches the sink.
pub proof fn lemma_no_change_no_render(cur: Seq<Option<Draw>>, prev: Seq<Option<Draw>>)
    requires
        cur.len() == prev.len(),
        forall|i: int| 0 <= i < cur.len() ==> cell_like(#[trigger] cur[i], prev[i]),
    ensures
        !frames_differ(cur, prev),
{
}

} // verus!
