use vstd::prelude::*;

use crate::sprite::{hrun_tiles, plain_tile, push_hrun, push_vrun, vrun_tiles};
use crate::util::Draw;

verus! {

/// Depth at which dialog boxes are drawn.
pub const DIALOG_Z_IDX: i32 = 10;

/// Longest line of text a dialog box holds before wrapping.
pub const MAX_LINE_COLS: usize = 40;

/// The index of the last space strictly before `upto`, or the wrap
/// width when no space occurs there.
pub open spec fn last_space_before(s: Seq<char>, upto: int) -> int
    decreases upto,
{
    if upto <= 0 {
        MAX_LINE_COLS as int
    } else if s[upto - 1] == ' ' {
        upto - 1
    } else {
        last_space_before(s, upto - 1)
    }
}

pub proof fn lemma_last_space_bounds(s: Seq<char>, upto: int)
    requires
        0 <= upto <= MAX_LINE_COLS,
    ensures
        0 <= last_space_before(s, upto) <= MAX_LINE_COLS,
    decreases upto,
{
    if upto > 0 && s[upto - 1] != ' ' {
        lemma_last_space_bounds(s, upto - 1);
    }
}

/// The text split greedily into lines: a text of at most the wrap
/// width stands alone; a longer one breaks at the last space within
/// the wrap width (dropping the character at the break), or hard at
/// the wrap width when no space occurs there.
pub open spec fn wrap_lines(s: Seq<char>) -> Seq<Seq<char>>
    decreases s.len(),
    via wrap_lines_decreases
{
    if s.len() <= MAX_LINE_COLS {
        seq![s]
    } else {
        let b = last_space_before(s, MAX_LINE_COLS as int);
        seq![s.subrange(0, b)] + wrap_lines(s.subrange(b + 1, s.len() as int))
    }
}

#[via_fn]
proof fn wrap_lines_decreases(s: Seq<char>) {
    if s.len() > MAX_LINE_COLS {
        lemma_last_space_bounds(s, MAX_LINE_COLS as int);
    }
}

/// Wrapping yields at least one line, never more lines than characters
/// plus one, and every line fits the wrap width.
pub proof fn lemma_wrap_lines_bounds(s: Seq<char>)
    ensures
        1 <= wrap_lines(s).len() <= s.len() + 1,
        forall|i: int|
            0 <= i < wrap_lines(s).len() ==> (#[trigger] wrap_lines(s)[i]).len()
                <= MAX_LINE_COLS,
    decreases s.len(),
{
    if s.len() > MAX_LINE_COLS {
        lemma_last_space_bounds(s, MAX_LINE_COLS as int);
        let b = last_space_before(s, MAX_LINE_COLS as int);
        lemma_wrap_lines_bounds(s.subrange(b + 1, s.len() as int));
    }
}

/// The length of the longest of the first `upto` lines.
pub open spec fn max_line_len(ls: Seq<Seq<char>>, upto: int) -> int
    decreases upto,
{
    if upto <= 0 {
        0
    } else {
        vstd::math::max(max_line_len(ls, upto - 1), ls[upto - 1].len() as int)
    }
}

/// The eight fixed tiles of the box frame: the tail corner, four blank
/// joints, and three diagonal corners, oriented by which side the box
/// opens toward.
pub open spec fn dlg_fixed_tiles(to_left: bool, x: int, y: int, dlx: int, nl: int, maxl: int) -> Seq<
    (Draw, (i32, i32)),
> {
    (if to_left {
        seq![plain_tile('+', DIALOG_Z_IDX, x + maxl + 5, y)]
    } else {
        seq![plain_tile('L', DIALOG_Z_IDX, x, y)]
    }) + seq![
        plain_tile(' ', DIALOG_Z_IDX, x + 1 + dlx, y),
        plain_tile(' ', DIALOG_Z_IDX, x + 1 + dlx, y - nl - 3),
        plain_tile(' ', DIALOG_Z_IDX, x + maxl + 3 + dlx, y),
        plain_tile(' ', DIALOG_Z_IDX, x + maxl + 3 + dlx, y - nl - 3),
        plain_tile('/', DIALOG_Z_IDX, x + dlx, y - nl - 2),
    ] + (if to_left {
        seq![plain_tile('\\', DIALOG_Z_IDX, x + 1, y - 1)]
    } else {
        seq![plain_tile('/', DIALOG_Z_IDX, x + maxl + 4, y - 1)]
    }) + seq![plain_tile('\\', DIALOG_Z_IDX, x + maxl + 4 + dlx, y - nl - 2)]
}

/// The four blank interior-edge tiles of each of the first `upto` text
/// rows.
pub open spec fn dlg_interior_blanks(upto: int, x: int, maxl: int, y: int) -> Seq<
    (Draw, (i32, i32)),
>
    decreases upto,
{
    if upto <= 0 {
        Seq::empty()
    } else {
        dlg_interior_blanks(upto - 1, x, maxl, y) + seq![
            plain_tile(' ', DIALOG_Z_IDX, x + 1, y - 2 - (upto - 1)),
            plain_tile(' ', DIALOG_Z_IDX, x + 2, y - 2 - (upto - 1)),
            plain_tile(' ', DIALOG_Z_IDX, x + maxl + 3, y - 2 - (upto - 1)),
            plain_tile(' ', DIALOG_Z_IDX, x + maxl + 4, y - 2 - (upto - 1)),
        ]
    }
}

/// The character of a line padded with spaces to the box width.
pub open spec fn padded_char(l: Seq<char>, i: int) -> char {
    if 0 <= i < l.len() {
        l[i]
    } else {
        ' '
    }
}

/// The first `upto` characters of one padded text row, as tiles.
pub open spec fn dlg_text_row(l: Seq<char>, upto: int, x0: int, yrow: int) -> Seq<
    (Draw, (i32, i32)),
>
    decreases upto,
{
    if upto <= 0 {
        Seq::empty()
    } else {
        dlg_text_row(l, upto - 1, x0, yrow).push(
            plain_tile(padded_char(l, upto - 1), DIALOG_Z_IDX, x0 + upto - 1, yrow),
        )
    }
}

/// The first `upto` text rows of the box.
pub open spec fn dlg_text_tiles(
    ls: Seq<Seq<char>>,
    upto: int,
    maxl: int,
    x: int,
    y: int,
    nl: int,
) -> Seq<(Draw, (i32, i32))>
    decreases upto,
{
    if upto <= 0 {
        Seq::empty()
    } else {
        dlg_text_tiles(ls, upto - 1, maxl, x, y, nl) + dlg_text_row(
            ls[upto - 1],
            maxl,
            x + 3,
            y - nl - 1 + (upto - 1),
        )
    }
}

/// A speech bubble: wrapped text in a drawn frame with a tail, opening
/// to the left or the right of its anchor.
pub struct Dialog {
    pub src: (i32, i32),
    pub text: String,
    pub to_left: bool,
}

/// Every tile of the dialog box, in drawing order: the fixed frame
/// pieces, the bottom and top dashes, the row of blanks under the top
/// frame, the interior edge blanks of each text row, the blanks over
/// the bottom frame, the left and right walls, and the padded text.
pub open spec fn dialog_tiles(d: Dialog) -> Seq<(Draw, (i32, i32))> {
    let ls = wrap_lines(d.text@);
    let nl = ls.len() as int;
    let maxl = max_line_len(ls, nl);
    let x = d.src.0 - (if d.to_left {
        maxl + 5
    } else {
        0
    });
    let y = d.src.1 as int;
    let dlx: int = if d.to_left {
        1
    } else {
        0
    };
    dlg_fixed_tiles(d.to_left, x, y, dlx, nl, maxl) + hrun_tiles(
        '-',
        DIALOG_Z_IDX,
        maxl + 1,
        x + 2 + dlx,
        y,
    ) + hrun_tiles('-', DIALOG_Z_IDX, maxl + 1, x + 2 + dlx, y - nl - 3) + hrun_tiles(
        ' ',
        DIALOG_Z_IDX,
        maxl + 3,
        x + 1 + dlx,
        y - 1,
    ) + dlg_interior_blanks(nl, x, maxl, y) + hrun_tiles(
        ' ',
        DIALOG_Z_IDX,
        maxl + 3,
        x + 1 + dlx,
        y - nl - 2,
    ) + vrun_tiles('|', DIALOG_Z_IDX, dlx, nl + 1, x, y - 1) + vrun_tiles(
        '|',
        DIALOG_Z_IDX,
        if d.to_left {
            -1
        } else {
            0
        },
        nl,
        x + maxl + 5,
        y - 2,
    ) + dlg_text_tiles(ls, nl, maxl, x, y, nl)
}

impl Dialog {
    /// Machine-safe anchor and text size.
    pub open spec fn wf(self) -> bool {
        &&& -100_000 <= self.src.0 <= 100_000
        &&& -100_000 <= self.src.1 <= 100_000
        &&& self.text@.len() <= 10_000
    }

    pub fn new(src: (i32, i32), text: String, to_left: bool) -> (r: Self)
        requires
            -100_000 <= src.0 <= 100_000,
            -100_000 <= src.1 <= 100_000,
            text@.len() <= 10_000,
        ensures
            r.wf(),
            r == (Dialog { src, text, to_left }),
    {
        Dialog { src, text, to_left }
    }

    /// The dialog's text, wrapped greedily at the box width.
    pub fn to_lines(&self) -> (r: Vec<String>)
        requires
            self.wf(),
        ensures
            r@.len() == wrap_lines(self.text@).len(),
            forall|i: int| 0 <= i < r@.len() ==> (#[trigger] r@[i])@ == wrap_lines(self.text@)[i],
    {
        let ghost full = wrap_lines(self.text@);
        let mut lines: Vec<String> = Vec::new();
        let mut rest: String = self.text.clone();
        proof {
            assert(wrap_lines(rest@) =~~= full.skip(0));
        }
        loop
            invariant_except_break
                rest@.len() <= self.text@.len(),
                wrap_lines(rest@) == full.skip(lines@.len() as int),
            invariant
                full == wrap_lines(self.text@),
                lines@.len() <= full.len(),
                forall|i: int| 0 <= i < lines@.len() ==> (#[trigger] lines@[i])@ == full[i],
            ensures
                lines@.len() == full.len(),
                forall|i: int| 0 <= i < lines@.len() ==> (#[trigger] lines@[i])@ == full[i],
            decreases rest@.len(),
        {
            let ghost k = lines@.len() as int;
            let n = rest.as_str().unicode_len();
            if n <= MAX_LINE_COLS {
                proof {
                    assert(wrap_lines(rest@) =~= seq![rest@]);
                    assert(full.skip(k).len() == full.len() - k);
                    assert(full[k] == full.skip(k)[0]);
                }
                lines.push(rest);
                break ;
            }
            let ghost prev = rest@;
            let s = rest.as_str();
            let mut b: usize = MAX_LINE_COLS;
            let mut i: usize = 0;
            while i < MAX_LINE_COLS
                invariant
                    i <= MAX_LINE_COLS,
                    b == last_space_before(prev, i as int),
                    b <= MAX_LINE_COLS,
                    s@ == prev,
                    n == prev.len(),
                    n > MAX_LINE_COLS,
                decreases MAX_LINE_COLS - i,
            {
                if s.get_char(i) == ' ' {
                    b = i;
                }
                i = i + 1;
            }
            let line = s.substring_char(0, b).to_owned();
            let tail = s.substring_char(b + 1, n).to_owned();
            rest = tail;
            lines.push(line);
            proof {
                assert(full.skip(k) == seq![line@] + wrap_lines(rest@));
                assert(full[k] == full.skip(k)[0]);
                assert((seq![line@] + wrap_lines(rest@))[0] == line@);
                assert(full.skip(k).drop_first() =~= full.skip(k + 1));
                assert((seq![line@] + wrap_lines(rest@)).drop_first() =~= wrap_lines(rest@));
            }
        }
        lines
    }

    /// All tiles of the dialog box, in drawing order.
    #[verifier::loop_isolation(false)]
    #[verifier::rlimit(100)]
    #[verifier::spinoff_prover]
    pub fn tiles(&self) -> (out: Vec<(Draw, (i32, i32))>)
        requires
            self.wf(),
        ensures
            out@ == dialog_tiles(*self),
    {
        proof {
            lemma_wrap_lines_bounds(self.text@);
        }
        let ghost ls = wrap_lines(self.text@);
        let lines = self.to_lines();
        let nl_count = lines.len();
        let nl = nl_count as i32;
        let mut maxl_u: usize = 0;
        let mut li: usize = 0;
        while li < nl_count
            invariant
                li <= nl_count,
                nl_count == ls.len(),
                maxl_u as int == max_line_len(ls, li as int),
                maxl_u <= MAX_LINE_COLS,
            decreases nl_count - li,
        {
            let l = lines[li].as_str().unicode_len();
            if l > maxl_u {
                maxl_u = l;
            }
            li = li + 1;
        }
        let maxl = maxl_u as i32;
        let x = self.src.0 - (if self.to_left {
            maxl + 5
        } else {
            0
        });
        let y = self.src.1;
        let dlx: i32 = if self.to_left {
            1
        } else {
            0
        };
        let ghost xi = x as int;
        let ghost yi = y as int;
        let ghost dlxi = dlx as int;
        let ghost nli = nl as int;
        let ghost maxli = maxl as int;
        let mut out: Vec<(Draw, (i32, i32))> = Vec::new();
        if self.to_left {
            out.push((plain(DIALOG_Z_IDX, '+'), (x + maxl + 5, y)));
        } else {
            out.push((plain(DIALOG_Z_IDX, 'L'), (x, y)));
        }
        out.push((plain(DIALOG_Z_IDX, ' '), (x + 1 + dlx, y)));
        out.push((plain(DIALOG_Z_IDX, ' '), (x + 1 + dlx, y - nl - 3)));
        out.push((plain(DIALOG_Z_IDX, ' '), (x + maxl + 3 + dlx, y)));
        out.push((plain(DIALOG_Z_IDX, ' '), (x + maxl + 3 + dlx, y - nl - 3)));
        out.push((plain(DIALOG_Z_IDX, '/'), (x + dlx, y - nl - 2)));
        if self.to_left {
            out.push((plain(DIALOG_Z_IDX, '\\'), (x + 1, y - 1)));
        } else {
            out.push((plain(DIALOG_Z_IDX, '/'), (x + maxl + 4, y - 1)));
        }
        out.push((plain(DIALOG_Z_IDX, '\\'), (x + maxl + 4 + dlx, y - nl - 2)));
        let ghost p1 = dlg_fixed_tiles(self.to_left, xi, yi, dlxi, nli, maxli);
        proof {
            assert(out@ =~= p1);
        }
        push_hrun(&mut out, '-', DIALOG_Z_IDX, maxl_u as u32 + 1, x + 2 + dlx, y);
        let ghost p2 = p1 + hrun_tiles('-', DIALOG_Z_IDX, maxli + 1, xi + 2 + dlxi, yi);
        push_hrun(&mut out, '-', DIALOG_Z_IDX, maxl_u as u32 + 1, x + 2 + dlx, y - nl - 3);
        let ghost p3 = p2 + hrun_tiles('-', DIALOG_Z_IDX, maxli + 1, xi + 2 + dlxi, yi - nli - 3);
        push_hrun(&mut out, ' ', DIALOG_Z_IDX, maxl_u as u32 + 3, x + 1 + dlx, y - 1);
        let ghost p4 = p3 + hrun_tiles(' ', DIALOG_Z_IDX, maxli + 3, xi + 1 + dlxi, yi - 1);
        let mut dy: i32 = 0;
        proof {
            assert(out@ =~= p4 + dlg_interior_blanks(0, xi, maxli, yi));
        }
        while dy < nl
            invariant
                0 <= dy <= nl,
                out@ == p4 + dlg_interior_blanks(dy as int, xi, maxli, yi),
            decreases nl - dy,
        {
            out.push((plain(DIALOG_Z_IDX, ' '), (x + 1, y - 2 - dy)));
            out.push((plain(DIALOG_Z_IDX, ' '), (x + 2, y - 2 - dy)));
            out.push((plain(DIALOG_Z_IDX, ' '), (x + maxl + 3, y - 2 - dy)));
            out.push((plain(DIALOG_Z_IDX, ' '), (x + maxl + 4, y - 2 - dy)));
            proof {
                assert(out@ =~= p4 + dlg_interior_blanks(dy as int + 1, xi, maxli, yi));
            }
            dy = dy + 1;
        }
        let ghost p5 = p4 + dlg_interior_blanks(nli, xi, maxli, yi);
        push_hrun(&mut out, ' ', DIALOG_Z_IDX, maxl_u as u32 + 3, x + 1 + dlx, y - nl - 2);
        let ghost p6 = p5 + hrun_tiles(' ', DIALOG_Z_IDX, maxli + 3, xi + 1 + dlxi, yi - nli - 2);
        push_vrun(&mut out, '|', DIALOG_Z_IDX, dlx, nl + 1, x, y - 1);
        let ghost p7 = p6 + vrun_tiles('|', DIALOG_Z_IDX, dlxi, nli + 1, xi, yi - 1);
        push_vrun(
            &mut out,
            '|',
            DIALOG_Z_IDX,
            if self.to_left {
                -1
            } else {
                0
            },
            nl,
            x + maxl + 5,
            y - 2,
        );
        let ghost p8 = p7 + vrun_tiles(
            '|',
            DIALOG_Z_IDX,
            if self.to_left {
                -1int
            } else {
                0int
            },
            nli,
            xi + maxli + 5,
            yi - 2,
        );
        let mut row: usize = 0;
        proof {
            assert(out@ =~= p8 + dlg_text_tiles(ls, 0, maxli, xi, yi, nli));
        }
        while row < nl_count
            invariant
                row <= nl_count,
                out@ == p8 + dlg_text_tiles(ls, row as int, maxli, xi, yi, nli),
            decreases nl_count - row,
        {
            let line = &lines[row];
            let line_len = line.as_str().unicode_len();
            let yrow = y - nl - 1 + row as i32;
            let ghost base = out@;
            let mut col: usize = 0;
            proof {
                assert(out@ =~= base + dlg_text_row(ls[row as int], 0, xi + 3, yrow as int));
            }
            while col < maxl_u
                invariant
                    col <= maxl_u,
                    out@ == base + dlg_text_row(ls[row as int], col as int, xi + 3, yrow as int),
                    line_len == ls[row as int].len(),
                decreases maxl_u - col,
            {
                let c = if col < line_len {
                    line.as_str().get_char(col)
                } else {
                    ' '
                };
                out.push((plain(DIALOG_Z_IDX, c), (x + 3 + col as i32, yrow)));
                col = col + 1;
            }
            proof {
                assert(out@ =~= p8 + dlg_text_tiles(ls, row as int + 1, maxli, xi, yi, nli));
            }
            row = row + 1;
        }
        proof {
            assert(out@ =~= dialog_tiles(*self));
        }
        out
    }
}

/// A colorless tile at the given depth.
fn plain(z: i32, c: char) -> (r: Draw)
    ensures
        r == (Draw {
            item: c,
            fg_color: Option::<u8>::None,
            bg_color: Option::<u8>::None,
            z_idx: z,
            italic: false,
        }),
{
    Draw { item: c, fg_color: Option::None, bg_color: Option::None, z_idx: z, italic: false }
}

} // verus!
