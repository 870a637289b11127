//! Text windows: a grid of VGA cells with a cursor, printed to like a terminal.
use vstd::prelude::*;

verus! {

/// Width of a window, in cells.
pub const WIN_W: usize = 46;
/// Height of a window, in cells, title bar included.
pub const WIN_H: usize = 14;
/// Cells held by a window's screen buffer.
pub const WIN_CELLS: usize = 750;
/// Bytes a window's command line holds.
pub const CMD_CAP: usize = 128;
/// Width of the VGA text screen.
pub const VGA_WIDTH: usize = 80;
/// Height of the VGA text screen.
pub const VGA_HEIGHT: usize = 25;

/// A VGA text cell: the byte in the low half, its colour in the high half.
pub open spec fn cell(c: u8, color: u8) -> u16 {
    (c + color * 256) as u16
}

/// Builds a VGA text cell.
pub fn make_cell(c: u8, color: u8) -> (res: u16)
    ensures
        res == cell(c, color),
{
    c as u16 + (color as u16) * 256
}

/// What printing sees of a window: the cursor and the cells.
pub struct Term {
    pub cx: int,
    pub cy: int,
    pub cells: Seq<u16>,
}

/// The screen moved up by one text row: the first text row is lost, the
/// last text row is blank in `color`, and the row below it is kept.
pub open spec fn scrolled(cells: Seq<u16>, color: u8) -> Seq<u16> {
    Seq::new(cells.len(), |k: int|
        if k < (WIN_H - 3) * WIN_W {
            cells[k + WIN_W]
        } else if k < (WIN_H - 2) * WIN_W {
            cell(0x20, color)
        } else {
            cells[k]
        })
}

/// The cursor and cells after one byte has been written, before scrolling.
/// A newline moves to the start of the next row; a backspace steps back and
/// blanks that cell (nothing happens at the start of a row); any other byte
/// is written at the cursor, which then advances and wraps two cells short of
/// the right edge.
pub open spec fn written(t: Term, c: u8, color: u8) -> Term {
    if c == 0x0a {
        Term { cx: 0, cy: t.cy + 1, cells: t.cells }
    } else if c == 0x08 {
        if t.cx > 0 {
            Term {
                cx: t.cx - 1,
                cy: t.cy,
                cells: t.cells.update(t.cy * WIN_W + t.cx - 1, cell(0x20, color)),
            }
        } else {
            t
        }
    } else {
        let cells = t.cells.update(t.cy * WIN_W + t.cx, cell(c, color));
        if t.cx + 1 >= WIN_W - 2 {
            Term { cx: 0, cy: t.cy + 1, cells }
        } else {
            Term { cx: t.cx + 1, cy: t.cy, cells }
        }
    }
}

/// Printing one byte: write it, then scroll when the cursor has reached the
/// last text row.
pub open spec fn printed(t: Term, c: u8, color: u8) -> Term {
    let w = written(t, c, color);
    if w.cy >= WIN_H - 2 {
        Term { cx: w.cx, cy: WIN_H - 3, cells: scrolled(w.cells, color) }
    } else {
        w
    }
}

/// Printing a sequence of bytes, one after the other.
pub open spec fn printed_all(t: Term, s: Seq<u8>, color: u8) -> Term
    decreases s.len(),
{
    if s.len() == 0 {
        t
    } else {
        printed(printed_all(t, s.drop_last(), color), s.last(), color)
    }
}

/// Printing a single byte.
pub proof fn lemma_printed_one(t: Term, c: u8, color: u8)
    ensures
        printed_all(t, seq![c], color) == printed(t, c, color),
{
    assert(seq![c].drop_last() =~= Seq::<u8>::empty());
    assert(printed_all(t, Seq::<u8>::empty(), color) == t);
}

/// Printing `a` and then `b` is printing `a + b`.
pub proof fn lemma_printed_all_concat(t: Term, a: Seq<u8>, b: Seq<u8>, color: u8)
    ensures
        printed_all(printed_all(t, a, color), b, color) == printed_all(t, a + b, color),
    decreases b.len(),
{
    if b.len() == 0 {
        assert(a + b =~= a);
    } else {
        lemma_printed_all_concat(t, a, b.drop_last(), color);
        assert((a + b).drop_last() =~= a + b.drop_last());
        assert((a + b).last() == b.last());
    }
}

/// The cells of a cleared window: blanks, white on black.
pub open spec fn blank_cells() -> Seq<u16> {
    Seq::new(WIN_CELLS as nat, |k: int| cell(0x20, 0x0F))
}

/// One cell to draw: a byte and its colour at column `x`, text row `y`.
#[derive(Clone, Copy)]
pub struct Put {
    pub x: usize,
    pub y: usize,
    pub c: u8,
    pub color: u8,
}

/// The cells after drawing `p`; a position outside the text area is
/// ignored.
pub open spec fn put_cell(cells: Seq<u16>, p: Put) -> Seq<u16> {
    if p.x < WIN_W && p.y < WIN_H - 1 {
        cells.update(p.y * WIN_W + p.x, cell(p.c, p.color))
    } else {
        cells
    }
}

/// The cells after drawing `ps`, one after the other.
pub open spec fn put_all(cells: Seq<u16>, ps: Seq<Put>) -> Seq<u16>
    decreases ps.len(),
{
    if ps.len() == 0 {
        cells
    } else {
        put_cell(put_all(cells, ps.drop_last()), ps.last())
    }
}

/// The bytes of `text` drawn from column `x` of text row `y` rightwards.
pub open spec fn text_puts(x: int, y: int, text: Seq<u8>, color: u8) -> Seq<Put> {
    Seq::new(text.len(), |i: int| Put { x: (x + i) as usize, y: y as usize, c: text[i], color })
}

/// Adds the cells of `text` drawn from `(x, y)` rightwards.
pub fn push_text(ps: &mut Vec<Put>, x: usize, y: usize, text: &[u8], color: u8)
    requires
        x + text.len() <= usize::MAX,
    ensures
        final(ps)@ == old(ps)@ + text_puts(x as int, y as int, text@, color),
{
    let mut i: usize = 0;
    while i < text.len()
        invariant
            i <= text.len(),
            x + text.len() <= usize::MAX,
            ps@ == old(ps)@ + text_puts(x as int, y as int, text@.take(i as int), color),
        decreases text.len() - i,
    {
        ps.push(Put { x: x + i, y: y, c: text[i], color: color });
        assert(ps@ =~= old(ps)@ + text_puts(x as int, y as int, text@.take(i + 1), color));
        i = i + 1;
    }
    assert(text@.take(text.len() as int) =~= text@);
}

/// A terminal window of the desktop.
#[derive(Clone, Copy)]
pub struct Window {
    pub active: bool,
    pub x: usize,
    pub y: usize,
    pub w: usize,
    pub h: usize,
    pub cx: usize,
    pub cy: usize,
    pub buf: [u8; 128],
    pub buf_len: usize,
    pub screen: [u16; 750],
}

impl Window {
    /// The window's geometry, cursor and command line are consistent.
    pub open spec fn wf(&self) -> bool {
        &&& self.w == WIN_W
        &&& self.h == WIN_H
        &&& self.cx < WIN_W - 2
        &&& self.cy <= WIN_H - 3
        &&& self.buf_len <= CMD_CAP
        &&& self.x + self.w <= VGA_WIDTH
        &&& self.y + self.h <= VGA_HEIGHT
    }

    pub open spec fn term(&self) -> Term {
        Term { cx: self.cx as int, cy: self.cy as int, cells: self.screen@ }
    }

    /// Everything but the cursor and the cells is as in `other`.
    pub open spec fn same_frame(&self, other: Window) -> bool {
        &&& self.active == other.active
        &&& self.x == other.x
        &&& self.y == other.y
        &&& self.w == other.w
        &&& self.h == other.h
        &&& self.buf@ == other.buf@
        &&& self.buf_len == other.buf_len
    }

    /// A closed window at the top left corner, with an empty screen.
    pub fn new() -> (res: Window)
        ensures
            res.wf(),
            !res.active,
            res.x == 0 && res.y == 0,
            res.cx == 0 && res.cy == 0,
            res.buf_len == 0,
            res.screen@ == Seq::new(WIN_CELLS as nat, |k: int| 0u16),
    {
        let res = Window {
            active: false,
            x: 0,
            y: 0,
            w: WIN_W,
            h: WIN_H,
            cx: 0,
            cy: 0,
            buf: [0u8; 128],
            buf_len: 0,
            screen: [0u16; 750],
        };
        assert(res.screen@ =~= Seq::new(WIN_CELLS as nat, |k: int| 0u16));
        res
    }

    /// Prints one byte at the cursor, as a terminal does (see `printed`).
    pub fn win_print_char(&mut self, c: u8, color: u8)
        requires
            old(self).wf(),
        ensures
            final(self).wf(),
            final(self).same_frame(*old(self)),
            final(self).term() == printed(old(self).term(), c, color),
    {
        let w = WIN_W;
        if c == 0x0a {
            self.cx = 0;
            self.cy = self.cy + 1;
        } else if c == 0x08 {
            if self.cx > 0 {
                self.cx = self.cx - 1;
                let idx = self.cy * w + self.cx;
                self.screen[idx] = make_cell(0x20, color);
            }
        } else {
            let idx = self.cy * w + self.cx;
            self.screen[idx] = make_cell(c, color);
            self.cx = self.cx + 1;
            if self.cx >= w - 2 {
                self.cx = 0;
                self.cy = self.cy + 1;
            }
        }
        let ghost mid = self.screen@;
        let ghost mid_cx = self.cx;
        assert(self.term() == written(old(self).term(), c, color));
        if self.cy >= WIN_H - 2 {
            let blank = make_cell(0x20, color);
            let mut k: usize = 0;
            while k < (WIN_H - 3) * WIN_W
                invariant
                    k <= (WIN_H - 3) * WIN_W,
                    w == WIN_W,
                    mid.len() == WIN_CELLS,
                    self.screen@.len() == WIN_CELLS,
                    self.same_frame(*old(self)),
                    self.cx == mid_cx,
                    mid_cx < WIN_W - 2,
                    forall|j: int| 0 <= j < k ==> self.screen@[j] == mid[j + WIN_W],
                    forall|j: int| k <= j < WIN_CELLS ==> self.screen@[j] == mid[j],
                decreases (WIN_H - 3) * WIN_W - k,
            {
                let v = self.screen[k + w];
                self.screen[k] = v;
                k = k + 1;
            }
            while k < (WIN_H - 2) * WIN_W
                invariant
                    (WIN_H - 3) * WIN_W <= k <= (WIN_H - 2) * WIN_W,
                    mid.len() == WIN_CELLS,
                    self.screen@.len() == WIN_CELLS,
                    self.same_frame(*old(self)),
                    self.cx == mid_cx,
                    mid_cx < WIN_W - 2,
                    blank == cell(0x20, color),
                    forall|j: int| 0 <= j < (WIN_H - 3) * WIN_W ==> self.screen@[j] == mid[j + WIN_W],
                    forall|j: int| (WIN_H - 3) * WIN_W <= j < k ==> self.screen@[j] == blank,
                    forall|j: int| k <= j < WIN_CELLS ==> self.screen@[j] == mid[j],
                decreases (WIN_H - 2) * WIN_W - k,
            {
                self.screen[k] = blank;
                k = k + 1;
            }
            self.cy = WIN_H - 3;
            assert(self.screen@ =~= scrolled(mid, color));
        }
    }

    /// Prints the bytes of `s`, one after the other.
    pub fn win_print_str(&mut self, s: &[u8], color: u8)
        requires
            old(self).wf(),
        ensures
            final(self).wf(),
            final(self).same_frame(*old(self)),
            final(self).term() == printed_all(old(self).term(), s@, color),
    {
        let mut i: usize = 0;
        while i < s.len()
            invariant
                i <= s.len(),
                self.wf(),
                self.same_frame(*old(self)),
                self.term() == printed_all(old(self).term(), s@.take(i as int), color),
            decreases s.len() - i,
        {
            self.win_print_char(s[i], color);
            assert(s@.take(i + 1).drop_last() =~= s@.take(i as int));
            i = i + 1;
        }
        assert(s@.take(s.len() as int) =~= s@);
    }

    /// Draws one cell at column `x` and text row `y`; a position outside the
    /// text area is ignored.
    pub fn win_draw_char(&mut self, x: usize, y: usize, c: u8, color: u8)
        requires
            old(self).wf(),
        ensures
            final(self).wf(),
            final(self).same_frame(*old(self)),
            final(self).cx == old(self).cx && final(self).cy == old(self).cy,
            final(self).screen@ == (if x < WIN_W && y < WIN_H - 1 {
                old(self).screen@.update(y * WIN_W + x, cell(c, color))
            } else {
                old(self).screen@
            }),
    {
        if x < self.w && y < self.h - 1 {
            let idx = y * self.w + x;
            self.screen[idx] = make_cell(c, color);
        }
    }

    /// Draws the cells of `ps`, one after the other (see `win_draw_char`).
    pub fn draw_puts(&mut self, ps: &Vec<Put>)
        requires
            old(self).wf(),
        ensures
            final(self).wf(),
            final(self).same_frame(*old(self)),
            final(self).cx == old(self).cx && final(self).cy == old(self).cy,
            final(self).screen@ == put_all(old(self).screen@, ps@),
    {
        let mut i: usize = 0;
        while i < ps.len()
            invariant
                i <= ps.len(),
                self.wf(),
                self.same_frame(*old(self)),
                self.cx == old(self).cx && self.cy == old(self).cy,
                self.screen@ == put_all(old(self).screen@, ps@.take(i as int)),
            decreases ps.len() - i,
        {
            let p = ps[i];
            self.win_draw_char(p.x, p.y, p.c, p.color);
            assert(ps@.take(i + 1).drop_last() =~= ps@.take(i as int));
            i = i + 1;
        }
        assert(ps@.take(ps.len() as int) =~= ps@);
    }

    /// Blanks the whole window and puts the cursor at the top left.
    pub fn win_clear(&mut self)
        requires
            old(self).wf(),
        ensures
            final(self).wf(),
            final(self).same_frame(*old(self)),
            final(self).cx == 0 && final(self).cy == 0,
            final(self).screen@ == blank_cells(),
    {
        let blank = make_cell(0x20, 0x0F);
        let mut i: usize = 0;
        while i < WIN_CELLS
            invariant
                i <= WIN_CELLS,
                self.screen@.len() == WIN_CELLS,
                blank == cell(0x20, 0x0F),
                self.wf(),
                self.same_frame(*old(self)),
                forall|j: int| 0 <= j < i ==> self.screen@[j] == blank,
            decreases WIN_CELLS - i,
        {
            self.screen[i] = blank;
            i = i + 1;
        }
        self.cx = 0;
        self.cy = 0;
        assert(self.screen@ =~= blank_cells());
    }
}

} // verus!
