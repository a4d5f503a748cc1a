//! The character grid the ASCII backend draws windows on: boxes whose line
//! style shows a window's state, tab markers above tabbed windows, and each
//! window's number and status inside its top-left corner.
use crate::ascii::AsciiWindow;
use crate::text::{decimal_chars, decimal_vec, digit_char, digit_exec};
use vstd::prelude::*;

verus! {

/// The six characters a box is drawn with.
#[derive(Debug, Clone, Copy, PartialEq, Eq, Structural)]
pub struct BoxStyle {
    pub tl: char,
    pub tr: char,
    pub bl: char,
    pub br: char,
    pub h: char,
    pub v: char,
}

/// Normal window (single line).
pub open spec fn normal_style() -> BoxStyle {
    BoxStyle { tl: '\u{250c}', tr: '\u{2510}', bl: '\u{2514}', br: '\u{2518}', h: '\u{2500}', v: '\u{2502}' }
}

/// Focused window (double line).
pub open spec fn focus_style() -> BoxStyle {
    BoxStyle { tl: '\u{2554}', tr: '\u{2557}', bl: '\u{255a}', br: '\u{255d}', h: '\u{2550}', v: '\u{2551}' }
}

/// Floating window (rounded corners).
pub open spec fn float_style() -> BoxStyle {
    BoxStyle { tl: '\u{256d}', tr: '\u{256e}', bl: '\u{2570}', br: '\u{256f}', h: '\u{2500}', v: '\u{2502}' }
}

/// Fullscreen window (heavy lines).
pub open spec fn full_style() -> BoxStyle {
    BoxStyle { tl: '\u{250f}', tr: '\u{2513}', bl: '\u{2517}', br: '\u{251b}', h: '\u{2501}', v: '\u{2503}' }
}

/// The style of a window's box: fullscreen before floating before focused.
pub open spec fn style_of(w: AsciiWindow) -> BoxStyle {
    if w.fullscreen {
        full_style()
    } else if w.floating {
        float_style()
    } else if w.focused {
        focus_style()
    } else {
        normal_style()
    }
}

/// The style of a window's box (see `style_of`).
pub fn window_style(w: &AsciiWindow) -> (s: BoxStyle)
    ensures
        s == style_of(*w),
{
    if w.fullscreen {
        BoxStyle { tl: '\u{250f}', tr: '\u{2513}', bl: '\u{2517}', br: '\u{251b}', h: '\u{2501}', v: '\u{2503}' }
    } else if w.floating {
        BoxStyle { tl: '\u{256d}', tr: '\u{256e}', bl: '\u{2570}', br: '\u{256f}', h: '\u{2500}', v: '\u{2502}' }
    } else if w.focused {
        BoxStyle { tl: '\u{2554}', tr: '\u{2557}', bl: '\u{255a}', br: '\u{255d}', h: '\u{2550}', v: '\u{2551}' }
    } else {
        BoxStyle { tl: '\u{250c}', tr: '\u{2510}', bl: '\u{2514}', br: '\u{2518}', h: '\u{2500}', v: '\u{2502}' }
    }
}

/// A grid of characters, `height` rows of `width` each.
#[derive(Debug, Clone)]
pub struct AsciiGrid {
    pub width: usize,
    pub height: usize,
    pub cells: Vec<Vec<char>>,
}

/// The grid as rows of characters.
pub open spec fn rows_of(cells: Seq<Vec<char>>) -> Seq<Seq<char>> {
    Seq::new(cells.len(), |y: int| cells[y]@)
}

/// Whether `g` has `height` rows of `width` characters.
pub open spec fn shaped(g: Seq<Seq<char>>, width: int, height: int) -> bool {
    g.len() == height && forall|y: int| 0 <= y < height ==> #[trigger] g[y].len() == width
}

/// The grid with the cell at row `y`, column `x` set to `c`.
pub open spec fn put(g: Seq<Seq<char>>, y: int, x: int, c: char) -> Seq<Seq<char>> {
    g.update(y, g[y].update(x, c))
}

/// A row after a box edge crossed it from column `x1` to `x2`: `left` and
/// `right` at the ends, and `mid` between them where there is one.
pub open spec fn row_drawn(row: Seq<char>, x1: int, x2: int, left: char, mid: Option<char>, right: char) -> Seq<char> {
    Seq::new(
        row.len(),
        |x: int|
            if x == x1 {
                left
            } else if x == x2 {
                right
            } else if x1 < x < x2 && mid is Some {
                mid->0
            } else {
                row[x]
            },
    )
}

/// The grid after a box from `(x1, y1)` to `(x2, y2)` was drawn in style
/// `s`: nothing where the box is empty.
pub open spec fn box_drawn(g: Seq<Seq<char>>, x1: int, y1: int, x2: int, y2: int, s: BoxStyle) -> Seq<Seq<char>> {
    if x2 <= x1 || y2 <= y1 {
        g
    } else {
        Seq::new(
            g.len(),
            |y: int|
                if y == y1 {
                    row_drawn(g[y], x1, x2, s.tl, Some(s.h), s.tr)
                } else if y == y2 {
                    row_drawn(g[y], x1, x2, s.bl, Some(s.h), s.br)
                } else if y1 < y < y2 {
                    row_drawn(g[y], x1, x2, s.v, None, s.v)
                } else {
                    g[y]
                },
        )
    }
}

/// The character that numbers tab `n`: its digit, or `?` from 10 on.
pub open spec fn tab_digit(n: int) -> char {
    if 0 <= n < 10 {
        digit_char(n as nat)
    } else {
        '?'
    }
}

/// The grid after tab markers `[1][2*][3]` were drawn in row `ty` from
/// column `tx`, markers `i` to `n - 1` (numbered from 1), the active tab
/// starred; drawing stops where a marker would come within 3 columns of
/// `x2`.
pub open spec fn tabs_drawn(
    g: Seq<Seq<char>>,
    ty: int,
    tx: int,
    i: int,
    n: int,
    x2: int,
    tab_index: int,
    is_active: bool,
) -> Seq<Seq<char>>
    decreases n - i,
{
    if i >= n || tx + 3 >= x2 {
        g
    } else {
        let g1 = put(put(g, ty, tx, '['), ty, tx + 1, tab_digit(i + 1));
        if i == tab_index && is_active {
            tabs_drawn(put(put(g1, ty, tx + 2, '*'), ty, tx + 3, ']'), ty, tx + 4, i + 1, n, x2, tab_index, is_active)
        } else {
            tabs_drawn(put(g1, ty, tx + 2, ']'), ty, tx + 3, i + 1, n, x2, tab_index, is_active)
        }
    }
}

/// The grid after `text` was written in row `y` from column `x`, stopping
/// at column `x2`.
pub open spec fn text_drawn(g: Seq<Seq<char>>, y: int, x: int, x2: int, text: Seq<char>) -> Seq<Seq<char>>
    decreases text.len(),
{
    if text.len() == 0 || x >= x2 {
        g
    } else {
        text_drawn(put(g, y, x, text[0]), y, x + 1, x2, text.drop_first())
    }
}

/// The column after `text` was written from `x`, stopping at `x2`.
pub open spec fn text_end(x: int, x2: int, text: Seq<char>) -> int {
    if x >= x2 {
        x
    } else if x + text.len() <= x2 {
        x + text.len()
    } else {
        x2
    }
}

/// The column where the fullscreen marker starts, after the focus marker.
pub open spec fn full_at(w: AsciiWindow, xe: int, x2: int) -> int {
    if w.fullscreen && xe + 5 < x2 {
        xe + 4
    } else {
        xe
    }
}

/// The grid after the status markers of `w` were written in row `y`,
/// the window's number ending at column `xe`: ` [F]` for focus, then
/// ` [FS]` for fullscreen four columns on, then a mark for urgency five
/// columns on (each where it starts far enough from `x2`).
pub open spec fn status_drawn(g: Seq<Seq<char>>, y: int, xe: int, x2: int, w: AsciiWindow) -> Seq<Seq<char>> {
    let g1 = if w.focused && xe + 4 < x2 {
        put(put(put(put(g, y, xe, ' '), y, xe + 1, '['), y, xe + 2, 'F'), y, xe + 3, ']')
    } else {
        g
    };
    let g2 = if w.fullscreen && xe + 5 < x2 {
        let x = xe + 4;
        put(put(put(put(put(g1, y, x, ' '), y, x + 1, '['), y, x + 2, 'F'), y, x + 3, 'S'), y, x + 4, ']')
    } else {
        g1
    };
    let xf = full_at(w, xe, x2);
    if w.urgent && xf + 4 < x2 {
        let x = xf + 5;
        put(put(put(g2, y, x, ' '), y, x + 2, '!'), y, x + 3, ']')
    } else {
        g2
    }
}

/// Whether the status markers of `w` fit in a grid `width` wide, the
/// window's number ending at column `xe` (the markers may run past the
/// window's right edge, but not past the grid's).
pub open spec fn status_fits(w: AsciiWindow, xe: int, x2: int, width: int) -> bool {
    &&& w.fullscreen && xe + 5 < x2 ==> xe + 8 < width
    &&& w.urgent && full_at(w, xe, x2) + 4 < x2 ==> full_at(w, xe, x2) + 8 < width
}

/// The grid after window `w` was drawn in the grid rectangle from
/// `(x1, y1)` to `(x2, y2)`: its box; tab markers in the row above where
/// it is tabbed, has a row above and is wide enough; and, where its first
/// inner row exists and it is wide enough, its number and status.
pub open spec fn window_drawn(g: Seq<Seq<char>>, x1: int, y1: int, x2: int, y2: int, w: AsciiWindow) -> Seq<Seq<char>> {
    let g1 = box_drawn(g, x1, y1, x2, y2, style_of(w));
    let g2 = match w.tab_info {
        Some(t) => if y1 > 0 && x1 + 2 < x2 {
            tabs_drawn(
                g1,
                y1 - 1,
                x1 + 1,
                0,
                if t.total_tabs < 10 {
                    t.total_tabs as int
                } else {
                    10
                },
                x2,
                t.tab_index as int,
                t.is_active,
            )
        } else {
            g1
        },
        None => g1,
    };
    if y1 + 1 < g.len() && x1 + 2 < x2 {
        let id = decimal_chars(w.id.id as nat);
        let g3 = text_drawn(g2, y1 + 1, x1 + 2, x2, id);
        status_drawn(g3, y1 + 1, text_end(x1 + 2, x2, id), x2, w)
    } else {
        g2
    }
}

/// Whether window `w` can be drawn in the grid rectangle without writing
/// past the grid.
pub open spec fn window_fits(x1: int, y1: int, x2: int, y2: int, w: AsciiWindow, width: int, height: int) -> bool {
    &&& 0 <= x1 < width && 0 <= x2 < width && 0 <= y1 < height && 0 <= y2 < height
    &&& (y1 + 1 < height && x1 + 2 < x2) ==> status_fits(
        w,
        text_end(x1 + 2, x2, decimal_chars(w.id.id as nat)),
        x2,
        width,
    )
}

/// The grid's rows as text, each ended by a newline.
pub open spec fn grid_text(g: Seq<Seq<char>>) -> Seq<char>
    decreases g.len(),
{
    if g.len() == 0 {
        Seq::empty()
    } else {
        grid_text(g.drop_last()) + g.last().push('\n')
    }
}

/// The windows in the order they are drawn: tiled ones first, floating ones
/// after them, each group in its own order.
pub open spec fn draw_order(ws: Seq<AsciiWindow>) -> Seq<AsciiWindow> {
    ws.filter(|w: AsciiWindow| !w.floating) + ws.filter(|w: AsciiWindow| w.floating)
}

/// The windows in the order they are drawn (see `draw_order`).
pub fn render_order(ws: &Vec<AsciiWindow>) -> (r: Vec<AsciiWindow>)
    ensures
        r@ == draw_order(ws@),
{
    let mut tiled: Vec<AsciiWindow> = Vec::new();
    let mut floating: Vec<AsciiWindow> = Vec::new();
    let mut i: usize = 0;
    while i < ws.len()
        invariant
            i <= ws.len(),
            tiled@ == ws@.take(i as int).filter(|w: AsciiWindow| !w.floating),
            floating@ == ws@.take(i as int).filter(|w: AsciiWindow| w.floating),
        decreases ws.len() - i,
    {
        let w = ws[i];
        proof {
            let t = ws@.take(i + 1);
            assert(t.drop_last() =~= ws@.take(i as int));
            assert(t.last() == w);
            t.filter_lemma(|w: AsciiWindow| !w.floating);
            reveal(Seq::filter);
        }
        if w.floating {
            floating.push(w);
        } else {
            tiled.push(w);
        }
        i += 1;
    }
    assert(ws@.take(i as int) =~= ws@);
    tiled.append(&mut floating);
    tiled
}

impl AsciiGrid {
    /// The grid's invariant: `height` rows of `width` characters.
    pub open spec fn wf(&self) -> bool {
        shaped(rows_of(self.cells@), self.width as int, self.height as int)
    }

    pub open spec fn rows(&self) -> Seq<Seq<char>> {
        rows_of(self.cells@)
    }

    /// A blank grid.
    pub fn new(width: usize, height: usize) -> (g: AsciiGrid)
        ensures
            g.wf(),
            g.width == width,
            g.height == height,
            forall|y: int, x: int| 0 <= y < height && 0 <= x < width ==> #[trigger] g.rows()[y][x] == ' ',
    {
        let mut cells: Vec<Vec<char>> = Vec::new();
        let mut y: usize = 0;
        while y < height
            invariant
                y <= height,
                cells@.len() == y,
                forall|k: int| 0 <= k < y ==> #[trigger] cells@[k]@.len() == width,
                forall|k: int, x: int| 0 <= k < y && 0 <= x < width ==> #[trigger] cells@[k]@[x] == ' ',
            decreases height - y,
        {
            let mut row: Vec<char> = Vec::new();
            let mut x: usize = 0;
            while x < width
                invariant
                    x <= width,
                    row@.len() == x,
                    forall|k: int| 0 <= k < x ==> #[trigger] row@[k] == ' ',
                decreases width - x,
            {
                row.push(' ');
                x += 1;
            }
            cells.push(row);
            y += 1;
        }
        AsciiGrid { width, height, cells }
    }

    /// Sets the cell at row `y`, column `x`.
    pub fn put(&mut self, y: usize, x: usize, c: char)
        requires
            old(self).wf(),
            y < old(self).height,
            x < old(self).width,
        ensures
            final(self).wf(),
            final(self).width == old(self).width,
            final(self).height == old(self).height,
            final(self).rows() == put(old(self).rows(), y as int, x as int, c),
    {
        let ghost g0 = self.rows();
        let mut row = self.cells[y].clone();
        assert(row@ == g0[y as int]);
        row.set(x, c);
        self.cells.set(y, row);
        assert(self.rows() =~= put(g0, y as int, x as int, c));
    }

    /// Blanks every cell.
    pub fn clear(&mut self)
        requires
            old(self).wf(),
        ensures
            final(self).wf(),
            final(self).width == old(self).width,
            final(self).height == old(self).height,
            forall|y: int, x: int|
                0 <= y < final(self).height && 0 <= x < final(self).width ==> #[trigger] final(self).rows()[y][x]
                    == ' ',
    {
        let blank = AsciiGrid::new(self.width, self.height);
        *self = blank;
    }

    /// Draws one row of a box edge.
    fn draw_row(&mut self, y: usize, x1: usize, x2: usize, left: char, mid: Option<char>, right: char)
        requires
            old(self).wf(),
            y < old(self).height,
            x1 < x2 < old(self).width,
        ensures
            final(self).wf(),
            final(self).width == old(self).width,
            final(self).height == old(self).height,
            final(self).rows() == old(self).rows().update(
                y as int,
                row_drawn(old(self).rows()[y as int], x1 as int, x2 as int, left, mid, right),
            ),
    {
        let ghost g0 = self.rows();
        let mut row = self.cells[y].clone();
        assert(row@ == g0[y as int]);
        row.set(x1, left);
        if let Some(m) = mid {
            let mut x = x1 + 1;
            while x < x2
                invariant
                    x1 < x <= x2,
                    x2 < row@.len(),
                    row@.len() == g0[y as int].len(),
                    forall|k: int|
                        0 <= k < row@.len() ==> #[trigger] row@[k] == (if k == x1 {
                            left
                        } else if x1 < k < x {
                            m
                        } else {
                            g0[y as int][k]
                        }),
                decreases x2 - x,
            {
                row.set(x, m);
                x += 1;
            }
        }
        row.set(x2, right);
        assert(row@ =~= row_drawn(g0[y as int], x1 as int, x2 as int, left, mid, right));
        self.cells.set(y, row);
        assert(self.rows() =~= g0.update(
            y as int,
            row_drawn(g0[y as int], x1 as int, x2 as int, left, mid, right),
        ));
    }

    /// Draws a box from `(x1, y1)` to `(x2, y2)` in style `s`; an empty box
    /// draws nothing.
    pub fn draw_box(&mut self, x1: usize, y1: usize, x2: usize, y2: usize, s: BoxStyle)
        requires
            old(self).wf(),
            x2 < old(self).width,
            y2 < old(self).height,
        ensures
            final(self).wf(),
            final(self).width == old(self).width,
            final(self).height == old(self).height,
            final(self).rows() == box_drawn(old(self).rows(), x1 as int, y1 as int, x2 as int, y2 as int, s),
    {
        let ghost g0 = self.rows();
        if x2 <= x1 || y2 <= y1 {
            return ;
        }
        let mut y = y1;
        while y <= y2
            invariant
                y1 <= y <= y2 + 1,
                x1 < x2 < self.width,
                y1 < y2 < self.height,
                self.wf(),
                self.width == old(self).width,
                self.height == old(self).height,
                g0 == old(self).rows(),
                g0.len() == self.height,
                forall|k: int|
                    0 <= k < self.height ==> #[trigger] self.rows()[k] == (if y1 <= k < y {
                        box_drawn(g0, x1 as int, y1 as int, x2 as int, y2 as int, s)[k]
                    } else {
                        g0[k]
                    }),
            decreases y2 + 1 - y,
        {
            let ghost before = self.rows();
            if y == y1 {
                self.draw_row(y, x1, x2, s.tl, Some(s.h), s.tr);
            } else if y == y2 {
                self.draw_row(y, x1, x2, s.bl, Some(s.h), s.br);
            } else {
                self.draw_row(y, x1, x2, s.v, None, s.v);
            }
            proof {
                let bd = box_drawn(g0, x1 as int, y1 as int, x2 as int, y2 as int, s);
                assert(before[y as int] == g0[y as int]);
                assert(self.rows()[y as int] == bd[y as int]);
                assert forall|k: int| 0 <= k < self.height implies #[trigger] self.rows()[k] == (if y1 <= k < y + 1 {
                    bd[k]
                } else {
                    g0[k]
                }) by {
                    if k != y as int {
                        assert(self.rows()[k] == before[k]);
                    }
                }
            }
            y += 1;
        }
        assert(self.rows() =~= box_drawn(g0, x1 as int, y1 as int, x2 as int, y2 as int, s));
    }

    /// Writes tab markers (see `tabs_drawn`).
    fn draw_tabs(&mut self, ty: usize, tx: usize, n: usize, x2: usize, tab_index: usize, is_active: bool)
        requires
            old(self).wf(),
            ty < old(self).height,
            x2 < old(self).width,
            tx <= x2,
            n <= 10,
        ensures
            final(self).wf(),
            final(self).width == old(self).width,
            final(self).height == old(self).height,
            final(self).rows() == tabs_drawn(
                old(self).rows(),
                ty as int,
                tx as int,
                0,
                n as int,
                x2 as int,
                tab_index as int,
                is_active,
            ),
    {
        let ghost g0 = self.rows();
        let mut i: usize = 0;
        let mut x = tx;
        while i < n
            invariant
                i <= n <= 10,
                x <= x2 + 1,
                g0 == old(self).rows(),
                ty < self.height,
                x2 < self.width,
                self.wf(),
                self.width == old(self).width,
                self.height == old(self).height,
                tabs_drawn(g0, ty as int, tx as int, 0, n as int, x2 as int, tab_index as int, is_active)
                    == tabs_drawn(self.rows(), ty as int, x as int, i as int, n as int, x2 as int, tab_index as int, is_active),
            decreases n - i,
        {
            if x2 <= x || x2 - x <= 3 {
                assert(tabs_drawn(self.rows(), ty as int, x as int, i as int, n as int, x2 as int, tab_index as int, is_active)
                    == self.rows());
                return ;
            }
            self.put(ty, x, '[');
            let d = if i + 1 < 10 {
                digit_exec((i + 1) as u64)
            } else {
                '?'
            };
            self.put(ty, x + 1, d);
            if i == tab_index && is_active {
                self.put(ty, x + 2, '*');
                self.put(ty, x + 3, ']');
                x = x + 4;
            } else {
                self.put(ty, x + 2, ']');
                x = x + 3;
            }
            i += 1;
        }
    }

    /// Writes `text` in row `y` from column `x`, stopping at column `x2`;
    /// the column where it stopped.
    fn draw_text(&mut self, y: usize, x: usize, x2: usize, text: &Vec<char>) -> (end: usize)
        requires
            old(self).wf(),
            y < old(self).height,
            x2 < old(self).width,
        ensures
            final(self).wf(),
            final(self).width == old(self).width,
            final(self).height == old(self).height,
            final(self).rows() == text_drawn(old(self).rows(), y as int, x as int, x2 as int, text@),
            end == text_end(x as int, x2 as int, text@),
    {
        let ghost g0 = self.rows();
        let mut k: usize = 0;
        let mut cx = x;
        assert(text@.skip(0) =~= text@);
        while k < text.len()
            invariant
                k <= text.len(),
                g0 == old(self).rows(),
                cx as int == x + k,
                k > 0 ==> cx <= x2,
                y < self.height,
                x2 < self.width,
                self.wf(),
                self.width == old(self).width,
                self.height == old(self).height,
                text_drawn(g0, y as int, x as int, x2 as int, text@) == text_drawn(
                    self.rows(),
                    y as int,
                    cx as int,
                    x2 as int,
                    text@.skip(k as int),
                ),
                text_end(x as int, x2 as int, text@) == text_end(cx as int, x2 as int, text@.skip(k as int)),
            ensures
                k == text.len() || cx >= x2,
                text_drawn(g0, y as int, x as int, x2 as int, text@) == text_drawn(
                    self.rows(),
                    y as int,
                    cx as int,
                    x2 as int,
                    text@.skip(k as int),
                ),
                text_end(x as int, x2 as int, text@) == text_end(cx as int, x2 as int, text@.skip(k as int)),
                self.wf(),
                self.width == old(self).width,
                self.height == old(self).height,
            decreases text.len() - k,
        {
            if cx >= x2 {
                break;
            }
            let ghost rest = text@.skip(k as int);
            assert(rest[0] == text@[k as int]);
            assert(rest.drop_first() =~= text@.skip(k + 1));
            self.put(y, cx, text[k]);
            cx += 1;
            k += 1;
        }
        proof {
            if k == text.len() {
                assert(text@.skip(k as int).len() == 0);
            }
        }
        cx
    }

    /// Writes the status markers of `w` (see `status_drawn`).
    fn draw_status(&mut self, y: usize, xe: usize, x2: usize, w: &AsciiWindow)
        requires
            old(self).wf(),
            y < old(self).height,
            x2 < old(self).width,
            status_fits(*w, xe as int, x2 as int, old(self).width as int),
        ensures
            final(self).wf(),
            final(self).width == old(self).width,
            final(self).height == old(self).height,
            final(self).rows() == status_drawn(old(self).rows(), y as int, xe as int, x2 as int, *w),
    {
        let mut x = xe;
        if w.focused && x < x2 && x2 - x > 4 {
            self.put(y, x, ' ');
            self.put(y, x + 1, '[');
            self.put(y, x + 2, 'F');
            self.put(y, x + 3, ']');
        }
        if w.fullscreen && x < x2 && x2 - x > 5 {
            x = x + 4;
            self.put(y, x, ' ');
            self.put(y, x + 1, '[');
            self.put(y, x + 2, 'F');
            self.put(y, x + 3, 'S');
            self.put(y, x + 4, ']');
        }
        if w.urgent && x < x2 && x2 - x > 4 {
            x = x + 5;
            self.put(y, x, ' ');
            self.put(y, x + 2, '!');
            self.put(y, x + 3, ']');
        }
    }

    /// Whether window `w` can be drawn in the grid rectangle from `(x1, y1)`
    /// to `(x2, y2)`: the corners lie in the grid and its status markers do
    /// not run past the grid's right edge.
    pub fn window_fits_in(&self, x1: usize, y1: usize, x2: usize, y2: usize, w: &AsciiWindow) -> (b: bool)
        ensures
            b == window_fits(x1 as int, y1 as int, x2 as int, y2 as int, *w, self.width as int, self.height as int),
    {
        if !(x1 < self.width && x2 < self.width && y1 < self.height && y2 < self.height) {
            return false;
        }
        if !((y1 as u128) + 1 < self.height as u128 && (x1 as u128) + 2 < x2 as u128) {
            return true;
        }
        let id = decimal_vec(w.id.get() as u64);
        let x: u128 = x1 as u128 + 2;
        let xe: u128 = if x >= x2 as u128 {
            x
        } else if x + id.len() as u128 <= x2 as u128 {
            x + id.len() as u128
        } else {
            x2 as u128
        };
        assert(xe == text_end(x1 + 2, x2 as int, decimal_chars(w.id.id as nat)));
        let width = self.width as u128;
        let full_ok = !(w.fullscreen && xe + 5 < x2 as u128) || xe + 8 < width;
        let fa: u128 = if w.fullscreen && xe + 5 < x2 as u128 {
            xe + 4
        } else {
            xe
        };
        let urgent_ok = !(w.urgent && fa + 4 < x2 as u128) || fa + 8 < width;
        full_ok && urgent_ok
    }

    /// Draws window `w` in the grid rectangle from `(x1, y1)` to `(x2, y2)`
    /// (see `window_drawn`).
    pub fn draw_window(&mut self, x1: usize, y1: usize, x2: usize, y2: usize, w: &AsciiWindow)
        requires
            old(self).wf(),
            window_fits(x1 as int, y1 as int, x2 as int, y2 as int, *w, old(self).width as int, old(self).height as int),
        ensures
            final(self).wf(),
            final(self).width == old(self).width,
            final(self).height == old(self).height,
            final(self).rows() == window_drawn(old(self).rows(), x1 as int, y1 as int, x2 as int, y2 as int, *w),
    {
        let style = window_style(w);
        self.draw_box(x1, y1, x2, y2, style);
        if let Some(t) = w.tab_info {
            if y1 > 0 && x1 < x2 && x2 - x1 > 2 {
                let n = if t.total_tabs < 10 {
                    t.total_tabs
                } else {
                    10
                };
                self.draw_tabs(y1 - 1, x1 + 1, n, x2, t.tab_index, t.is_active);
            }
        }
        if y1 < self.height && self.height - y1 > 1 && x1 < x2 && x2 - x1 > 2 {
            let id = decimal_vec(w.id.get() as u64);
            let xe = self.draw_text(y1 + 1, x1 + 2, x2, &id);
            self.draw_status(y1 + 1, xe, x2, w);
        }
    }

    /// The grid's rows as text, each ended by a newline.
    pub fn to_text(&self) -> (s: Vec<char>)
        requires
            self.wf(),
        ensures
            s@ == grid_text(self.rows()),
    {
        let mut out: Vec<char> = Vec::new();
        let mut y: usize = 0;
        while y < self.cells.len()
            invariant
                y <= self.cells.len(),
                out@ == grid_text(self.rows().take(y as int)),
            decreases self.cells.len() - y,
        {
            assert(self.rows().take(y + 1).drop_last() =~= self.rows().take(y as int));
            assert(self.rows().take(y + 1).last() == self.cells@[y as int]@);
            let mut x: usize = 0;
            let ghost before = out@;
            while x < self.cells[y].len()
                invariant
                    y < self.cells.len(),
                    x <= self.cells@[y as int]@.len(),
                    out@ == before + self.cells@[y as int]@.take(x as int),
                decreases self.cells@[y as int]@.len() - x,
            {
                out.push(self.cells[y][x]);
                x += 1;
                assert(out@ =~= before + self.cells@[y as int]@.take(x as int));
            }
            out.push('\n');
            assert(self.cells@[y as int]@.take(x as int) =~= self.cells@[y as int]@);
            assert(out@ =~= before + self.cells@[y as int]@.push('\n'));
            y += 1;
        }
        assert(self.rows().take(y as int) =~= self.rows());
        out
    }
}


/// Tab markers change only their own row.
pub proof fn lemma_tabs_row(
    g: Seq<Seq<char>>,
    ty: int,
    tx: int,
    i: int,
    n: int,
    x2: int,
    tab_index: int,
    is_active: bool,
    r: int,
)
    requires
        r != ty,
        0 <= ty < g.len(),
        0 <= r < g.len(),
    ensures
        tabs_drawn(g, ty, tx, i, n, x2, tab_index, is_active).len() == g.len(),
        tabs_drawn(g, ty, tx, i, n, x2, tab_index, is_active)[r] == g[r],
    decreases n - i,
{
    if i >= n || tx + 3 >= x2 {
    } else {
        let g1 = put(put(g, ty, tx, '['), ty, tx + 1, tab_digit(i + 1));
        if i == tab_index && is_active {
            let g2 = put(put(g1, ty, tx + 2, '*'), ty, tx + 3, ']');
            lemma_tabs_row(g2, ty, tx + 4, i + 1, n, x2, tab_index, is_active, r);
        } else {
            let g2 = put(g1, ty, tx + 2, ']');
            lemma_tabs_row(g2, ty, tx + 3, i + 1, n, x2, tab_index, is_active, r);
        }
    }
}

/// Text changes only its own row.
pub proof fn lemma_text_row(g: Seq<Seq<char>>, y: int, x: int, x2: int, text: Seq<char>, r: int)
    requires
        r != y,
        0 <= y < g.len(),
        0 <= r < g.len(),
    ensures
        text_drawn(g, y, x, x2, text).len() == g.len(),
        text_drawn(g, y, x, x2, text)[r] == g[r],
    decreases text.len(),
{
    if text.len() == 0 || x >= x2 {
    } else {
        lemma_text_row(put(g, y, x, text[0]), y, x + 1, x2, text.drop_first(), r);
    }
}

/// Law: a drawn window shows its state in its top-left corner: the corner
/// of a heavy box where it is fullscreen, else of a rounded one where it
/// floats, else of a double one where it has focus, else of a single one;
/// tab markers and the window's number and status do not cover it.
pub proof fn law_corner_shows_state(g: Seq<Seq<char>>, x1: int, y1: int, x2: int, y2: int, w: AsciiWindow)
    requires
        shaped(g, g[0].len() as int, g.len() as int),
        g.len() > 0,
        0 <= x1 < x2 < g[0].len(),
        0 <= y1 < y2 < g.len(),
    ensures
        window_drawn(g, x1, y1, x2, y2, w)[y1][x1] == style_of(w).tl,
{
    let g1 = box_drawn(g, x1, y1, x2, y2, style_of(w));
    assert(g1[y1][x1] == style_of(w).tl);
    let g2 = match w.tab_info {
        Some(t) => if y1 > 0 && x1 + 2 < x2 {
            tabs_drawn(
                g1,
                y1 - 1,
                x1 + 1,
                0,
                if t.total_tabs < 10 {
                    t.total_tabs as int
                } else {
                    10
                },
                x2,
                t.tab_index as int,
                t.is_active,
            )
        } else {
            g1
        },
        None => g1,
    };
    match w.tab_info {
        Some(t) => if y1 > 0 && x1 + 2 < x2 {
            lemma_tabs_row(
                g1,
                y1 - 1,
                x1 + 1,
                0,
                if t.total_tabs < 10 {
                    t.total_tabs as int
                } else {
                    10
                },
                x2,
                t.tab_index as int,
                t.is_active,
                y1,
            );
        },
        None => {},
    }
    assert(g2[y1] == g1[y1]);
    assert(g2.len() == g.len());
    if y1 + 1 < g.len() && x1 + 2 < x2 {
        let id = decimal_chars(w.id.id as nat);
        lemma_text_row(g2, y1 + 1, x1 + 2, x2, id, y1);
        let g3 = text_drawn(g2, y1 + 1, x1 + 2, x2, id);
        assert(g3[y1] == g2[y1]);
    }
}

} // verus!
