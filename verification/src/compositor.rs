//! Composing the windows, their title bars, the text cursor and the mouse
//! pointer into the 80x25 VGA text frame, and deciding when the frame must be
//! shown again.
use vstd::prelude::*;
use crate::screen::{Window, cell, make_cell, WIN_W, WIN_H, VGA_WIDTH, VGA_HEIGHT};

verus! {

/// Cells of the VGA text screen.
pub const FRAME_CELLS: usize = 2000;

/// The desktop background: red full blocks.
pub open spec fn background() -> Seq<u16> {
    Seq::new(FRAME_CELLS as nat, |k: int| cell(0xDB, 0x0C))
}

/// " Terminal ", the title of every window.
pub open spec fn title_text() -> Seq<u8> {
    seq![0x20u8, 0x54, 0x65, 0x72, 0x6d, 0x69, 0x6e, 0x61, 0x6c, 0x20]
}

/// The colour of a window's title bar: bright on blue for the focused
/// window, black on grey for the others.
pub open spec fn title_color(i: int, focused: int) -> u8 {
    if i == focused { 0x1F } else { 0x70 }
}

/// What window `i` shows at column `wx`, row `wy` of its own area (row 0 is
/// the title bar): the title bar with " Terminal " from column 2 and, but on
/// the main window, a close mark three cells from the right; below it the
/// window's cells, with the cursor cell of the focused window drawn black on
/// white.
pub open spec fn window_cell(win: Window, i: int, focused: int, wx: int, wy: int) -> u16 {
    let tc = title_color(i, focused);
    if wy == 0 {
        if 2 <= wx < 12 {
            cell(title_text()[wx - 2], tc)
        } else if i != 0 && wx == WIN_W - 3 {
            cell(0x58, 0x4F)
        } else {
            cell(0x20, tc)
        }
    } else {
        let v = win.screen@[(wy - 1) * WIN_W + wx];
        if i == focused && wy - 1 == win.cy && wx == win.cx {
            (v % 256 + 0xF000) as u16
        } else {
            v
        }
    }
}

/// `fb` with window `i` drawn over it.
pub open spec fn layer(fb: Seq<u16>, win: Window, i: int, focused: int) -> Seq<u16> {
    Seq::new(fb.len(), |k: int| {
        let r = k / (VGA_WIDTH as int);
        let q = k % (VGA_WIDTH as int);
        if win.active && win.y <= r < win.y + WIN_H && win.x <= q < win.x + WIN_W {
            window_cell(win, i, focused, q - win.x, r - win.y)
        } else {
            fb[k]
        }
    })
}

/// The frame: the background, the two other windows and then the focused
/// one over them, and the mouse pointer (a red `+`) on top when it is on
/// the screen.
pub open spec fn compose(ws: Seq<Window>, focused: int, mx: int, my: int) -> Seq<u16> {
    let a = (focused + 1) % 3;
    let b = (focused + 2) % 3;
    let fb = layer(layer(layer(background(), ws[a], a, focused), ws[b], b, focused), ws[focused], focused, focused);
    if 0 <= mx < VGA_WIDTH && 0 <= my < VGA_HEIGHT {
        fb.update(my * VGA_WIDTH + mx, cell(0x2B, 0x0C))
    } else {
        fb
    }
}

/// The focused window is on top: every cell of the frame inside it, but
/// the pointer's, shows what the focused window shows there, whatever the
/// other windows hold.
pub proof fn lemma_focused_on_top(ws: Seq<Window>, f: int, mx: int, my: int, k: int)
    requires
        ws.len() == 3,
        0 <= f < 3,
        ws[f].active,
        0 <= k < FRAME_CELLS,
        ws[f].y <= k / (VGA_WIDTH as int) < ws[f].y + WIN_H,
        ws[f].x <= k % (VGA_WIDTH as int) < ws[f].x + WIN_W,
        !(0 <= mx < VGA_WIDTH && 0 <= my < VGA_HEIGHT && k == my * VGA_WIDTH + mx),
    ensures
        compose(ws, f, mx, my)[k] == window_cell(ws[f], f, f,
            k % (VGA_WIDTH as int) - ws[f].x, k / (VGA_WIDTH as int) - ws[f].y),
{
}

/// The pointer is drawn on top of everything as a red `+`; where no open
/// window lies, the red background shows.
pub proof fn lemma_pointer_and_background(ws: Seq<Window>, f: int, mx: int, my: int, k: int)
    requires
        ws.len() == 3,
        0 <= f < 3,
        0 <= k < FRAME_CELLS,
    ensures
        0 <= mx < VGA_WIDTH && 0 <= my < VGA_HEIGHT && k == my * VGA_WIDTH + mx
            ==> compose(ws, f, mx, my)[k] == 0x0C2B,
        !(0 <= mx < VGA_WIDTH && 0 <= my < VGA_HEIGHT && k == my * VGA_WIDTH + mx)
            && (forall|j: int| 0 <= j < 3 ==> !((#[trigger] ws[j]).active
                && ws[j].y <= k / (VGA_WIDTH as int) < ws[j].y + WIN_H
                && ws[j].x <= k % (VGA_WIDTH as int) < ws[j].x + WIN_W))
            ==> compose(ws, f, mx, my)[k] == 0x0CDB,
{
    let a = (f + 1) % 3;
    let b = (f + 2) % 3;
    assert(!(ws[a].active && ws[a].y <= k / (VGA_WIDTH as int) < ws[a].y + WIN_H
        && ws[a].x <= k % (VGA_WIDTH as int) < ws[a].x + WIN_W) || exists|j: int| 0 <= j < 3 && (#[trigger] ws[j]).active
        && ws[j].y <= k / (VGA_WIDTH as int) < ws[j].y + WIN_H
        && ws[j].x <= k % (VGA_WIDTH as int) < ws[j].x + WIN_W);
    assert(!(ws[b].active && ws[b].y <= k / (VGA_WIDTH as int) < ws[b].y + WIN_H
        && ws[b].x <= k % (VGA_WIDTH as int) < ws[b].x + WIN_W) || exists|j: int| 0 <= j < 3 && (#[trigger] ws[j]).active
        && ws[j].y <= k / (VGA_WIDTH as int) < ws[j].y + WIN_H
        && ws[j].x <= k % (VGA_WIDTH as int) < ws[j].x + WIN_W);
}

/// What the screen last showed and whether it must be shown again anyway.
pub struct Compositor {
    pub last: Vec<u16>,
    pub needs_redraw: bool,
}

/// The frame to show, if any: it is shown when a redraw was asked for or
/// when it differs from what was shown last.
pub open spec fn to_show(needs_redraw: bool, last: Seq<u16>, frame: Seq<u16>) -> Option<Seq<u16>> {
    if needs_redraw || frame != last { Some(frame) } else { None }
}

/// What window `i` shows at `(wx, wy)`.
fn window_cell_exec(win: &Window, i: usize, focused: usize, wx: usize, wy: usize) -> (res: u16)
    requires
        win.wf(),
        wx < WIN_W,
        wy < WIN_H,
    ensures
        res == window_cell(*win, i as int, focused as int, wx as int, wy as int),
{
    let tc: u8 = if i == focused { 0x1F } else { 0x70 };
    if wy == 0 {
        if 2 <= wx && wx < 12 {
            let t: [u8; 10] = [0x20, 0x54, 0x65, 0x72, 0x6d, 0x69, 0x6e, 0x61, 0x6c, 0x20];
            assert(t@ =~= title_text());
            make_cell(t[wx - 2], tc)
        } else if i != 0 && wx == WIN_W - 3 {
            make_cell(0x58, 0x4F)
        } else {
            make_cell(0x20, tc)
        }
    } else {
        let v = win.screen[(wy - 1) * WIN_W + wx];
        if i == focused && wy - 1 == win.cy && wx == win.cx {
            v % 256 + 0xF000
        } else {
            v
        }
    }
}

/// Draws window `i` over `fb`.
fn draw_layer(fb: &mut Vec<u16>, win: &Window, i: usize, focused: usize)
    requires
        win.wf(),
        old(fb)@.len() == FRAME_CELLS,
    ensures
        final(fb)@ == layer(old(fb)@, *win, i as int, focused as int),
{
    let mut k: usize = 0;
    while k < FRAME_CELLS
        invariant
            k <= FRAME_CELLS,
            win.wf(),
            fb@.len() == FRAME_CELLS,
            old(fb)@.len() == FRAME_CELLS,
            forall|j: int| 0 <= j < k ==> fb@[j] == layer(old(fb)@, *win, i as int, focused as int)[j],
            forall|j: int| k <= j < FRAME_CELLS ==> fb@[j] == old(fb)@[j],
        decreases FRAME_CELLS - k,
    {
        let r = k / VGA_WIDTH;
        let q = k % VGA_WIDTH;
        let ghost want = layer(old(fb)@, *win, i as int, focused as int);
        assert(want.len() == FRAME_CELLS);
        if win.active && win.y <= r && r < win.y + WIN_H && win.x <= q && q < win.x + WIN_W {
            let v = window_cell_exec(win, i, focused, q - win.x, r - win.y);
            fb.set(k, v);
            assert(fb@[k as int] == want[k as int]);
        } else {
            assert(fb@[k as int] == want[k as int]);
        }
        k = k + 1;
    }
    assert(fb@ =~= layer(old(fb)@, *win, i as int, focused as int));
}

/// Composes the frame (see `compose`).
pub fn compose_frame(ws: &[Window; 3], focused: usize, mx: i32, my: i32) -> (res: Vec<u16>)
    requires
        focused < 3,
        forall|i: int| 0 <= i < 3 ==> (#[trigger] ws@[i]).wf(),
    ensures
        res@ == compose(ws@, focused as int, mx as int, my as int),
{
    let bg = make_cell(0xDB, 0x0C);
    let mut fb: Vec<u16> = Vec::new();
    let mut k: usize = 0;
    while k < FRAME_CELLS
        invariant
            k <= FRAME_CELLS,
            bg == cell(0xDB, 0x0C),
            fb@ == background().take(k as int),
        decreases FRAME_CELLS - k,
    {
        fb.push(bg);
        assert(fb@ =~= background().take(k + 1));
        k = k + 1;
    }
    assert(fb@ =~= background());
    let a = (focused + 1) % 3;
    let b = (focused + 2) % 3;
    draw_layer(&mut fb, &ws[a], a, focused);
    draw_layer(&mut fb, &ws[b], b, focused);
    draw_layer(&mut fb, &ws[focused], focused, focused);
    if 0 <= mx && mx < VGA_WIDTH as i32 && 0 <= my && my < VGA_HEIGHT as i32 {
        let idx = (my as usize) * VGA_WIDTH + (mx as usize);
        fb.set(idx, make_cell(0x2B, 0x0C));
    }
    fb
}

/// Whether two frames are the same.
fn frames_equal(a: &Vec<u16>, b: &Vec<u16>) -> (res: bool)
    ensures
        res == (a@ == b@),
{
    if a.len() != b.len() {
        return false;
    }
    let mut i: usize = 0;
    while i < a.len()
        invariant
            i <= a.len(),
            a.len() == b.len(),
            forall|j: int| 0 <= j < i ==> a@[j] == b@[j],
        decreases a.len() - i,
    {
        if a[i] != b[i] {
            return false;
        }
        i = i + 1;
    }
    assert(a@ =~= b@);
    true
}

impl Compositor {
    /// Nothing shown yet: the first frame is shown whatever it holds.
    pub fn new() -> (res: Compositor)
        ensures
            res.needs_redraw,
            res.last@ == Seq::new(FRAME_CELLS as nat, |k: int| 0u16),
    {
        let mut last: Vec<u16> = Vec::new();
        let mut k: usize = 0;
        while k < FRAME_CELLS
            invariant
                k <= FRAME_CELLS,
                last@ == Seq::new(k as nat, |j: int| 0u16),
            decreases FRAME_CELLS - k,
        {
            last.push(0);
            assert(last@ =~= Seq::new((k + 1) as nat, |j: int| 0u16));
            k = k + 1;
        }
        Compositor { last, needs_redraw: true }
    }

    /// Asks for the next frame to be shown even if it has not changed.
    pub fn mark_screen_dirty(&mut self)
        ensures
            final(self).needs_redraw,
            final(self).last@ == old(self).last@,
    {
        self.needs_redraw = true;
    }

    /// Composes the frame and returns it when it must be shown (see
    /// `to_show`); afterwards it counts as shown and no redraw is pending.
    pub fn composite_screen(&mut self, ws: &[Window; 3], focused: usize, mx: i32, my: i32) -> (res: Option<Vec<u16>>)
        requires
            focused < 3,
            forall|i: int| 0 <= i < 3 ==> (#[trigger] ws@[i]).wf(),
        ensures
            !final(self).needs_redraw,
            final(self).last@ == compose(ws@, focused as int, mx as int, my as int),
            match res {
                Some(f) => to_show(old(self).needs_redraw, old(self).last@,
                    compose(ws@, focused as int, mx as int, my as int)) == Some(f@),
                None => to_show(old(self).needs_redraw, old(self).last@,
                    compose(ws@, focused as int, mx as int, my as int)) is None,
            },
    {
        let frame = compose_frame(ws, focused, mx, my);
        let changed = self.needs_redraw || !frames_equal(&frame, &self.last);
        self.needs_redraw = false;
        if changed {
            let shown = copy_frame(&frame);
            self.last = frame;
            Some(shown)
        } else {
            None
        }
    }
}

/// A copy of a frame.
fn copy_frame(f: &Vec<u16>) -> (res: Vec<u16>)
    ensures
        res@ == f@,
{
    let mut v: Vec<u16> = Vec::new();
    let mut i: usize = 0;
    while i < f.len()
        invariant
            i <= f.len(),
            v@ == f@.take(i as int),
        decreases f.len() - i,
    {
        v.push(f[i]);
        assert(v@ =~= f@.take(i + 1));
        i = i + 1;
    }
    assert(v@ =~= f@);
    v
}

/// A frame that has just been shown is not shown again until something
/// changes or a redraw is asked for.
pub proof fn lemma_shown_frame_is_not_repeated(frame: Seq<u16>)
    ensures
        to_show(false, frame, frame) is None,
{
}

} // verus!
