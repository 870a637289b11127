//! The desktop: three terminal windows, the mouse, the keyboard and the
//! commands typed into the windows.
use vstd::prelude::*;
use crate::screen::{Window, Term, printed, printed_all, blank_cells, WIN_W, WIN_H, VGA_WIDTH, VGA_HEIGHT, CMD_CAP, lemma_printed_all_concat, lemma_printed_one};
use crate::vfs::{Vfs, File, text_of, in_folder_named};
use crate::search::{first_with, none_with, first_index, lemma_first_index, lemma_first_index_is};
use crate::script::{Vars, copy_range};
use crate::compositor::Compositor;
use crate::keys::{scancode_to_char, spec_scancode_to_char};
use crate::text;
use crate::text::{t_neofetch_cmd, neofetch_cmd, t_help_cmd, help_cmd, t_dino_cmd, dino_cmd, t_maker_cmd, maker_cmd, t_dungeon_cmd, dungeon_cmd, t_new_cmd, new_cmd, t_chest_cmd, chest_cmd, t_sd_cmd, sd_cmd, t_wash_cmd, wash_cmd, t_ide_cmd, ide_cmd, t_carapace_cmd, carapace_cmd, t_close_cmd, close_cmd, t_claw_cmd, claw_cmd, t_sf_cmd, sf_cmd, t_ad_prefix, ad_prefix, t_ex_prefix, ex_prefix, t_maker_slash, maker_slash, t_dino_slash, dino_slash, t_carapace_dot, carapace_dot, t_carapace_word, carapace_word, t_dot_dot, dot_dot, t_neofetch_art, neofetch_art, t_neofetch_os, neofetch_os, t_help_text, help_text, t_cannot_close, cannot_close, t_invalid_folder, invalid_folder, t_unknown_dir, unknown_dir, t_not_in_folder, not_in_folder, t_not_found, not_found, t_folder_empty, folder_empty, t_unknown_cmd, unknown_cmd, t_welcome, welcome, t_type_help, type_help, t_max_windows, max_windows, t_prompt, prompt};

verus! {

/// The state of the desktop.
pub struct Desktop {
    pub windows: [Window; 3],
    pub focused: usize,
    pub win_dir: [u8; 3],
    pub mouse_x: i32,
    pub mouse_y: i32,
    pub shift: bool,
    pub dragging: Option<(usize, i32, i32)>,
    pub prev_left: bool,
    pub vfs: Vfs,
    pub vars: Vars,
    pub compositor: Compositor,
}

/// Half of a mouse movement, rounded towards zero.
pub open spec fn half(d: int) -> int {
    if d >= 0 { d / 2 } else { -((-d) / 2) }
}

/// `v` held in `lo..=hi`.
pub open spec fn clamp(v: int, lo: int, hi: int) -> int {
    if v < lo { lo } else if v > hi { hi } else { v }
}

/// The first open window, or the main one when none is open.
pub open spec fn first_open(ws: Seq<Window>) -> int {
    if ws[0].active { 0 } else if ws[1].active { 1 } else if ws[2].active { 2 } else { 0 }
}

impl Desktop {
    /// Every window is well formed, a window is focused, and a dragged
    /// window exists.
    pub open spec fn wf(&self) -> bool {
        &&& forall|i: int| 0 <= i < 3 ==> (#[trigger] self.windows@[i]).wf()
        &&& self.focused < 3
        &&& (self.dragging matches Some(d) ==> d.0 < 3 && 0 <= d.1 < WIN_W && 0 <= d.2 < WIN_H)
    }

    /// Only window `id` may differ between `self` and `other`.
    pub open spec fn others_same(&self, other: Desktop, id: int) -> bool {
        &&& forall|j: int| 0 <= j < 3 && j != id ==> self.windows@[j] == other.windows@[j]
        &&& self.keep_rest(other)
    }

    /// Everything but the windows and the focus is as in `other`.
    pub open spec fn keep_rest_but_focus(&self, other: Desktop) -> bool {
        &&& self.win_dir@ == other.win_dir@
        &&& self.mouse_x == other.mouse_x
        &&& self.mouse_y == other.mouse_y
        &&& self.shift == other.shift
        &&& self.dragging == other.dragging
        &&& self.prev_left == other.prev_left
        &&& self.vfs.files@ == other.vfs.files@
        &&& self.vars@ == other.vars@
        &&& self.compositor.last@ == other.compositor.last@
        &&& self.compositor.needs_redraw == other.compositor.needs_redraw
    }

    /// Everything but the windows is as in `other`.
    pub open spec fn keep_rest(&self, other: Desktop) -> bool {
        &&& self.focused == other.focused
        &&& self.keep_rest_but_focus(other)
    }

    /// Prints `s` in window `id`.
    pub fn print(&mut self, id: usize, s: &[u8], color: u8)
        requires
            old(self).wf(),
            id < 3,
        ensures
            final(self).wf(),
            final(self).others_same(*old(self), id as int),
            final(self).windows@[id as int].same_frame(old(self).windows@[id as int]),
            final(self).windows@[id as int].term() == printed_all(old(self).windows@[id as int].term(), s@, color),
    {
        let mut w = self.windows[id];
        w.win_print_str(s, color);
        self.windows[id] = w;
    }

    /// Prints one byte in window `id`.
    pub fn print_char(&mut self, id: usize, c: u8, color: u8)
        requires
            old(self).wf(),
            id < 3,
        ensures
            final(self).wf(),
            final(self).others_same(*old(self), id as int),
            final(self).windows@[id as int].same_frame(old(self).windows@[id as int]),
            final(self).windows@[id as int].term() == printed(old(self).windows@[id as int].term(), c, color),
    {
        let mut w = self.windows[id];
        w.win_print_char(c, color);
        self.windows[id] = w;
    }

    /// Clears window `id`.
    pub fn clear(&mut self, id: usize)
        requires
            old(self).wf(),
            id < 3,
        ensures
            final(self).wf(),
            final(self).others_same(*old(self), id as int),
            final(self).windows@[id as int].same_frame(old(self).windows@[id as int]),
            final(self).windows@[id as int].term() == (Term { cx: 0, cy: 0, cells: blank_cells() }),
    {
        let mut w = self.windows[id];
        w.win_clear();
        self.windows[id] = w;
    }

    /// The desktop before any window is open: all windows closed at the top
    /// left, no folder entered, the mouse in the middle of the screen.
    pub fn new() -> (res: Desktop)
        ensures
            res.wf(),
            forall|i: int| 0 <= i < 3 ==> !(#[trigger] res.windows@[i]).active,
            forall|i: int| 0 <= i < 3 ==> (#[trigger] res.win_dir@[i]) == 255,
            res.focused == 0,
            res.mouse_x == 40 && res.mouse_y == 12,
            !res.shift && !res.prev_left && res.dragging is None,
    {
        let w = Window::new();
        Desktop {
            windows: [w, w, w],
            focused: 0,
            win_dir: [255u8, 255u8, 255u8],
            mouse_x: 40,
            mouse_y: 12,
            shift: false,
            dragging: None,
            prev_left: false,
            vfs: Vfs::new(),
            vars: Vars::new(),
            compositor: Compositor::new(),
        }
    }

    /// Opens the first closed window: it is cleared, greets the user and
    /// shows the prompt, and gets the focus. With every window open, the
    /// focused window says so in red.
    pub fn open_new_window(&mut self) -> (res: Option<usize>)
        requires
            old(self).wf(),
        ensures
            final(self).wf(),
            final(self).keep_rest_but_focus(*old(self)),
            match res {
                Some(i) => {
                    &&& i < 3
                    &&& !old(self).windows@[i as int].active
                    &&& forall|j: int| 0 <= j < i ==> (#[trigger] old(self).windows@[j]).active
                    &&& final(self).focused == i
                    &&& forall|j: int| 0 <= j < 3 && j != i ==> final(self).windows@[j] == old(self).windows@[j]
                    &&& final(self).windows@[i as int].active
                    &&& final(self).windows@[i as int].buf_len == 0
                    &&& final(self).windows@[i as int].x == old(self).windows@[i as int].x
                    &&& final(self).windows@[i as int].y == old(self).windows@[i as int].y
                    &&& final(self).windows@[i as int].buf@ == old(self).windows@[i as int].buf@
                    &&& final(self).windows@[i as int].term() == printed_all(
                        Term { cx: 0, cy: 0, cells: blank_cells() },
                        t_welcome() + t_type_help() + t_prompt(), 0x0A)
                },
                None => {
                    &&& forall|j: int| 0 <= j < 3 ==> (#[trigger] old(self).windows@[j]).active
                    &&& final(self).others_same(*old(self), old(self).focused as int)
                    &&& final(self).windows@[old(self).focused as int].same_frame(old(self).windows@[old(self).focused as int])
                    &&& final(self).windows@[old(self).focused as int].term() == printed_all(
                        old(self).windows@[old(self).focused as int].term(), t_max_windows(), 0x0C)
                },
            },
    {
        let mut i: usize = 0;
        while i < 3
            invariant
                i <= 3,
                self == old(self),
                self.wf(),
                forall|j: int| 0 <= j < i ==> (#[trigger] old(self).windows@[j]).active,
            decreases 3 - i,
        {
            if !self.windows[i].active {
                let mut w = self.windows[i];
                w.active = true;
                w.buf_len = 0;
                w.win_clear();
                let ghost t0 = w.term();
                w.win_print_str(&text::welcome(), 0x0A);
                w.win_print_str(&text::type_help(), 0x0A);
                w.win_print_str(&text::prompt(), 0x0A);
                proof {
                    lemma_printed_all_concat(t0, t_welcome(), t_type_help(), 0x0A);
                    lemma_printed_all_concat(t0, t_welcome() + t_type_help(), t_prompt(), 0x0A);
                }
                self.windows[i] = w;
                self.focused = i;
                return Some(i);
            }
            i = i + 1;
        }
        let f = self.focused;
        self.print(f, &text::max_windows(), 0x0C);
        None
    }

    /// The desktop as the system starts it: the first window open and
    /// focused, the windows at (5, 3), (15, 5) and (25, 7).
    pub fn boot() -> (res: Desktop)
        ensures
            res.wf(),
            res.windows@[0].active,
            !res.windows@[1].active && !res.windows@[2].active,
            res.focused == 0,
            res.windows@[0].x == 5 && res.windows@[0].y == 3,
            res.windows@[1].x == 15 && res.windows@[1].y == 5,
            res.windows@[2].x == 25 && res.windows@[2].y == 7,
            res.windows@[0].term() == printed_all(Term { cx: 0, cy: 0, cells: blank_cells() },
                t_welcome() + t_type_help() + t_prompt(), 0x0A),
            res.windows@[0].buf_len == 0,
            forall|i: int| 0 <= i < 3 ==> (#[trigger] res.win_dir@[i]) == 255,
            res.mouse_x == 40 && res.mouse_y == 12,
            !res.shift && !res.prev_left && res.dragging is None,
    {
        let mut d = Desktop::new();
        assert(!d.windows@[0].active);
        let opened = d.open_new_window();
        assert(opened == Some(0usize));
        d.windows[0].x = 5;
        d.windows[0].y = 3;
        d.windows[1].x = 15;
        d.windows[1].y = 5;
        d.windows[2].x = 25;
        d.windows[2].y = 7;
        d
    }
}

/// The pointer is on window `w` (title bar included).
pub open spec fn on_window(w: Window, mx: int, my: int) -> bool {
    w.active && w.x <= mx < w.x + w.w && w.y <= my < w.y + w.h
}

/// The window that a click at `(mx, my)` hits: the focused window first, then
/// the next two in turn; 3 when it hits none.
pub open spec fn hit(ws: Seq<Window>, f: int, mx: int, my: int) -> int {
    if on_window(ws[f], mx, my) {
        f
    } else if on_window(ws[(f + 1) % 3], mx, my) {
        (f + 1) % 3
    } else if on_window(ws[(f + 2) % 3], mx, my) {
        (f + 2) % 3
    } else {
        3
    }
}

/// A click lands on the window on top: when the pointer is on the
/// focused open window, that is the window it hits.
pub proof fn lemma_click_hits_focused(ws: Seq<Window>, f: int, mx: int, my: int)
    requires
        ws.len() == 3,
        0 <= f < 3,
        ws[f].active,
        ws[f].x <= mx < ws[f].x + ws[f].w,
        ws[f].y <= my < ws[f].y + ws[f].h,
    ensures
        hit(ws, f, mx, my) == f,
{
}

/// A click hits an open window under the pointer, or none (3) when the
/// pointer is on no open window.
pub proof fn lemma_hit_under_pointer(ws: Seq<Window>, f: int, mx: int, my: int)
    requires
        ws.len() == 3,
        0 <= f < 3,
    ensures
        0 <= hit(ws, f, mx, my) <= 3,
        hit(ws, f, mx, my) < 3 ==> {
            let w = ws[hit(ws, f, mx, my)];
            w.active && w.x <= mx < w.x + w.w && w.y <= my < w.y + w.h
        },
        hit(ws, f, mx, my) == 3 ==> forall|j: int| 0 <= j < 3 ==>
            !((#[trigger] ws[j]).active && ws[j].x <= mx < ws[j].x + ws[j].w && ws[j].y <= my < ws[j].y + ws[j].h),
{
    if hit(ws, f, mx, my) == 3 {
        assert forall|j: int| 0 <= j < 3 implies
            !((#[trigger] ws[j]).active && ws[j].x <= mx < ws[j].x + ws[j].w && ws[j].y <= my < ws[j].y + ws[j].h) by {
            assert(j == f || j == (f + 1) % 3 || j == (f + 2) % 3);
        }
    }
}

/// Where a dragged window's corner goes: kept on the screen.
pub open spec fn drag_to(v: int, size: int, limit: int) -> int {
    let a = if v < 0 { 0 } else { v };
    if a + size > limit { limit - size } else { a }
}

/// The pointer moved by half of `(dx, -dy)` and kept on the screen.
pub open spec fn moved_x(mx: int, dx: int) -> int {
    clamp(mx + half(dx), 0, VGA_WIDTH - 1)
}

pub open spec fn moved_y(my: int, dy: int) -> int {
    clamp(my - half(dy), 0, VGA_HEIGHT - 1)
}

/// Half of a mouse movement, rounded towards zero.
pub fn half_of(d: i32) -> (res: i32)
    ensures
        res == half(d as int),
{
    if d >= 0 { d / 2 } else { -((-(d as i64)) / 2) as i32 }
}

impl Desktop {
    /// Moves the pointer by half the movement, and keeps it on the screen.
    pub fn move_mouse(&mut self, dx: i32, dy: i32)
        requires
            old(self).wf(),
            i32::MIN <= old(self).mouse_x + half(dx as int) <= i32::MAX,
            i32::MIN <= old(self).mouse_y - half(dy as int) <= i32::MAX,
        ensures
            final(self).wf(),
            final(self).mouse_x == moved_x(old(self).mouse_x as int, dx as int),
            final(self).mouse_y == moved_y(old(self).mouse_y as int, dy as int),
            final(self).windows@ == old(self).windows@,
            final(self).focused == old(self).focused,
            final(self).dragging == old(self).dragging,
            final(self).prev_left == old(self).prev_left,
            final(self).compositor.needs_redraw == old(self).compositor.needs_redraw,
            final(self).compositor.last@ == old(self).compositor.last@,
            final(self).win_dir@ == old(self).win_dir@,
            final(self).shift == old(self).shift,
            final(self).vfs.files@ == old(self).vfs.files@,
            final(self).vars@ == old(self).vars@,
    {
        let mut x = self.mouse_x + half_of(dx);
        let mut y = self.mouse_y - half_of(dy);
        if x < 0 {
            x = 0;
        }
        if x >= VGA_WIDTH as i32 {
            x = VGA_WIDTH as i32 - 1;
        }
        if y < 0 {
            y = 0;
        }
        if y >= VGA_HEIGHT as i32 {
            y = VGA_HEIGHT as i32 - 1;
        }
        self.mouse_x = x;
        self.mouse_y = y;
    }

    /// Moves the pointer by half the movement without keeping it on the
    /// screen, as the file viewer and the song player do.
    pub fn nudge_mouse(&mut self, dx: i32, dy: i32)
        requires
            old(self).wf(),
            i32::MIN <= old(self).mouse_x + half(dx as int) <= i32::MAX,
            i32::MIN <= old(self).mouse_y - half(dy as int) <= i32::MAX,
        ensures
            final(self).wf(),
            final(self).mouse_x == old(self).mouse_x + half(dx as int),
            final(self).mouse_y == old(self).mouse_y - half(dy as int),
            final(self).windows@ == old(self).windows@,
            final(self).focused == old(self).focused,
            final(self).dragging == old(self).dragging,
            final(self).prev_left == old(self).prev_left,
            final(self).compositor.needs_redraw == old(self).compositor.needs_redraw,
            final(self).compositor.last@ == old(self).compositor.last@,
            final(self).win_dir@ == old(self).win_dir@,
            final(self).shift == old(self).shift,
            final(self).vfs.files@ == old(self).vfs.files@,
            final(self).vars@ == old(self).vars@,
    {
        self.mouse_x = self.mouse_x + half_of(dx);
        self.mouse_y = self.mouse_y - half_of(dy);
    }

    /// Whether the pointer is on window `i`.
    fn pointer_on(&self, i: usize) -> (res: bool)
        requires
            self.wf(),
            i < 3,
        ensures
            res == on_window(self.windows@[i as int], self.mouse_x as int, self.mouse_y as int),
    {
        let w = &self.windows[i];
        let mx = self.mouse_x;
        let my = self.mouse_y;
        w.active && mx >= w.x as i32 && mx < (w.x + w.w) as i32 && my >= w.y as i32 && my < (w.y + w.h) as i32
    }

    /// Gives the focus to the first open window, or to the main one.
    fn refocus(&mut self)
        requires
            old(self).wf(),
        ensures
            final(self).wf(),
            final(self).focused == first_open(old(self).windows@),
            final(self).windows@ == old(self).windows@,
            final(self).keep_rest_but_focus(*old(self)),
    {
        let mut j: usize = 0;
        while j < 3
            invariant
                j <= 3,
                self == old(self),
                self.wf(),
                forall|k: int| 0 <= k < j ==> !(#[trigger] self.windows@[k]).active,
            decreases 3 - j,
        {
            if self.windows[j].active {
                self.focused = j;
                return;
            }
            j = j + 1;
        }
        self.focused = 0;
    }

    /// A mouse report: the pointer moves (see `move_mouse`) and the screen
    /// is redrawn. A press of the left button on a window focuses it; on its
    /// title bar it starts dragging it, or closes it when it is not the
    /// main window and the press is on the last four cells. While the button
    /// is held the dragged window follows the pointer, kept on the screen;
    /// releasing the button ends the drag.
    pub fn on_mouse(&mut self, dx: i32, dy: i32, left: bool)
        requires
            old(self).wf(),
            i32::MIN <= old(self).mouse_x + half(dx as int) <= i32::MAX,
            i32::MIN <= old(self).mouse_y - half(dy as int) <= i32::MAX,
        ensures
            final(self).wf(),
            booted(*old(self)) ==> booted(*final(self)),
            ({
                let mx = moved_x(old(self).mouse_x as int, dx as int);
                let my = moved_y(old(self).mouse_y as int, dy as int);
                let ws = old(self).windows@;
                let f = old(self).focused as int;
                &&& final(self).mouse_x == mx
                &&& final(self).mouse_y == my
                &&& final(self).compositor.needs_redraw
                &&& final(self).compositor.last@ == old(self).compositor.last@
                &&& final(self).prev_left == left
                &&& final(self).win_dir@ == old(self).win_dir@
                &&& final(self).shift == old(self).shift
                &&& final(self).vfs.files@ == old(self).vfs.files@
                &&& final(self).vars@ == old(self).vars@
                &&& (left && !old(self).prev_left && ws[f].active
                    && ws[f].x <= mx < ws[f].x + ws[f].w && ws[f].y < my < ws[f].y + ws[f].h
                    ==> final(self).focused == old(self).focused)
                &&& if left && !old(self).prev_left {
                    let i = hit(ws, f, mx, my);
                    if i == 3 {
                        &&& final(self).windows@ == ws
                        &&& final(self).focused == old(self).focused
                        &&& final(self).dragging == old(self).dragging
                    } else if my == ws[i].y && i != 0 && mx >= ws[i].x + WIN_W - 4 {
                        let closed = ws.update(i, Window { active: false, ..ws[i] });
                        &&& final(self).windows@ == closed
                        &&& final(self).focused == first_open(closed)
                        &&& final(self).dragging == old(self).dragging
                    } else if my == ws[i].y {
                        &&& final(self).windows@ == ws
                        &&& final(self).focused == i
                        &&& final(self).dragging == Some((i as usize, (mx - ws[i].x) as i32, (my - ws[i].y) as i32))
                    } else {
                        &&& final(self).windows@ == ws
                        &&& final(self).focused == i
                        &&& final(self).dragging == old(self).dragging
                    }
                } else if left {
                    &&& final(self).focused == old(self).focused
                    &&& final(self).dragging == old(self).dragging
                    &&& final(self).windows@ == match old(self).dragging {
                        Some(d) => ws.update(d.0 as int, Window {
                            x: drag_to(mx - d.1, WIN_W as int, VGA_WIDTH as int) as usize,
                            y: drag_to(my - d.2, WIN_H as int, VGA_HEIGHT as int) as usize,
                            ..ws[d.0 as int]
                        }),
                        None => ws,
                    }
                } else {
                    &&& final(self).windows@ == ws
                    &&& final(self).focused == old(self).focused
                    &&& final(self).dragging is None
                }
            }),
    {
        self.move_mouse(dx, dy);
        self.compositor.mark_screen_dirty();
        let mx = self.mouse_x;
        let my = self.mouse_y;
        if left {
            if !self.prev_left {
                let f = self.focused;
                let f1 = (f + 1) % 3;
                let f2 = (f + 2) % 3;
                let found: usize = if self.pointer_on(f) {
                    f
                } else if self.pointer_on(f1) {
                    f1
                } else if self.pointer_on(f2) {
                    f2
                } else {
                    3
                };
                assert(found == hit(self.windows@, f as int, mx as int, my as int));
                proof {
                    let ws0 = self.windows@;
                    if ws0[f as int].active && ws0[f as int].x <= mx < ws0[f as int].x + ws0[f as int].w
                        && ws0[f as int].y <= my < ws0[f as int].y + ws0[f as int].h {
                        lemma_click_hits_focused(ws0, f as int, mx as int, my as int);
                    }
                }
                if found < 3 {
                    let i = found;
                    let wx = self.windows[i].x;
                    let wy = self.windows[i].y;
                    if my == wy as i32 {
                        if i != 0 && mx >= (wx + WIN_W - 4) as i32 {
                            self.windows[i].active = false;
                            self.refocus();
                        } else {
                            self.dragging = Some((i, mx - wx as i32, my - wy as i32));
                            self.focused = i;
                        }
                    } else {
                        self.focused = i;
                    }
                }
            } else {
                match self.dragging {
                    Some((id, ox, oy)) => {
                        let mut nx = mx - ox;
                        let mut ny = my - oy;
                        if nx < 0 {
                            nx = 0;
                        }
                        if ny < 0 {
                            ny = 0;
                        }
                        if nx + WIN_W as i32 > VGA_WIDTH as i32 {
                            nx = VGA_WIDTH as i32 - WIN_W as i32;
                        }
                        if ny + WIN_H as i32 > VGA_HEIGHT as i32 {
                            ny = VGA_HEIGHT as i32 - WIN_H as i32;
                        }
                        self.windows[id].x = nx as usize;
                        self.windows[id].y = ny as usize;
                    },
                    None => {},
                }
            }
        } else {
            self.dragging = None;
        }
        self.prev_left = left;
    }
}

// ----------------------------------------------------------------------
// Commands
// ----------------------------------------------------------------------

/// The commands that a window understands.
#[derive(Clone, Copy, Debug, PartialEq, Eq)]
pub enum Cmd {
    Neofetch,
    Help,
    Dino,
    Maker,
    Dungeon,
    New,
    Chest,
    Shutdown,
    Wash,
    Ide,
    Carapace,
    Close,
    Claw,
    ChangeDir,
    Exec,
    ListFiles,
    Other,
}

/// What a typed line asks for: whole-line commands first, then the `r.ad`
/// and `r.ex ` prefixes, then `r.sf`.
pub open spec fn command_of(cmd: Seq<u8>) -> Cmd {
    if cmd == t_neofetch_cmd() { Cmd::Neofetch }
    else if cmd == t_help_cmd() { Cmd::Help }
    else if cmd == t_dino_cmd() { Cmd::Dino }
    else if cmd == t_maker_cmd() { Cmd::Maker }
    else if cmd == t_dungeon_cmd() { Cmd::Dungeon }
    else if cmd == t_new_cmd() { Cmd::New }
    else if cmd == t_chest_cmd() { Cmd::Chest }
    else if cmd == t_sd_cmd() { Cmd::Shutdown }
    else if cmd == t_wash_cmd() { Cmd::Wash }
    else if cmd == t_ide_cmd() { Cmd::Ide }
    else if cmd == t_carapace_cmd() { Cmd::Carapace }
    else if cmd == t_close_cmd() { Cmd::Close }
    else if cmd == t_claw_cmd() { Cmd::Claw }
    else if cmd.len() >= 4 && cmd.take(4) == t_ad_prefix() { Cmd::ChangeDir }
    else if cmd.len() >= 5 && cmd.take(5) == t_ex_prefix() { Cmd::Exec }
    else if cmd == t_sf_cmd() { Cmd::ListFiles }
    else { Cmd::Other }
}

/// Whether `a` holds exactly the bytes of `b`.
pub fn bytes_eq(a: &[u8], b: &[u8]) -> (res: bool)
    ensures
        res == (a@ == b@),
{
    if a.len() != b.len() {
        return false;
    }
    let mut i: usize = 0;
    while i < a.len()
        invariant
            i <= a.len(),
            a.len() == b.len(),
            forall|j: int| 0 <= j < i ==> a@[j] == b@[j],
        decreases a.len() - i,
    {
        if a[i] != b[i] {
            return false;
        }
        i = i + 1;
    }
    assert(a@ =~= b@);
    true
}

/// Whether `a` holds the bytes of `b` from position `at` on.
pub fn bytes_at(a: &[u8], at: usize, b: &[u8]) -> (res: bool)
    ensures
        res == (at + b.len() <= a.len() && a@.subrange(at as int, at + b.len()) == b@),
{
    if at > a.len() || a.len() - at < b.len() {
        return false;
    }
    let mut i: usize = 0;
    while i < b.len()
        invariant
            i <= b.len(),
            at + b.len() <= a.len(),
            forall|j: int| 0 <= j < i ==> a@[at + j] == b@[j],
        decreases b.len() - i,
    {
        if a[at + i] != b[i] {
            assert(a@.subrange(at as int, at + b.len())[i as int] != b@[i as int]);
            return false;
        }
        i = i + 1;
    }
    assert(a@.subrange(at as int, at + b.len()) =~= b@);
    true
}

/// The command that a line asks for.
pub fn parse_command(cmd: &[u8]) -> (res: Cmd)
    ensures
        res == command_of(cmd@),
{
    let ad = ad_prefix();
    let ex = ex_prefix();
    if bytes_eq(cmd, &neofetch_cmd()) { Cmd::Neofetch }
    else if bytes_eq(cmd, &help_cmd()) { Cmd::Help }
    else if bytes_eq(cmd, &dino_cmd()) { Cmd::Dino }
    else if bytes_eq(cmd, &maker_cmd()) { Cmd::Maker }
    else if bytes_eq(cmd, &dungeon_cmd()) { Cmd::Dungeon }
    else if bytes_eq(cmd, &new_cmd()) { Cmd::New }
    else if bytes_eq(cmd, &chest_cmd()) { Cmd::Chest }
    else if bytes_eq(cmd, &sd_cmd()) { Cmd::Shutdown }
    else if bytes_eq(cmd, &wash_cmd()) { Cmd::Wash }
    else if bytes_eq(cmd, &ide_cmd()) { Cmd::Ide }
    else if bytes_eq(cmd, &carapace_cmd()) { Cmd::Carapace }
    else if bytes_eq(cmd, &close_cmd()) { Cmd::Close }
    else if bytes_eq(cmd, &claw_cmd()) { Cmd::Claw }
    else if cmd.len() >= 4 && bytes_at(cmd, 0, &ad) {
        assert(cmd@.subrange(0, 4) =~= cmd@.take(4));
        Cmd::ChangeDir
    } else if cmd.len() >= 5 && bytes_at(cmd, 0, &ex) {
        assert(cmd@.subrange(0, 5) =~= cmd@.take(5));
        Cmd::Exec
    } else {
        proof {
            if cmd@.len() >= 4 {
                assert(cmd@.subrange(0, 4) =~= cmd@.take(4));
            }
            if cmd@.len() >= 5 {
                assert(cmd@.subrange(0, 5) =~= cmd@.take(5));
            }
        }
        if bytes_eq(cmd, &sf_cmd()) { Cmd::ListFiles } else { Cmd::Other }
    }
}

/// The folder that `r.ad` enters: `Some(dir)` when the line names one (255
/// is the root above the folders), `None` for a bad folder digit (the
/// `bool` is true) or an unknown directory (false).
pub open spec fn dir_of(cmd: Seq<u8>) -> Result<u8, bool> {
    if cmd.len() == 15 && cmd.subrange(5, 14) == t_carapace_dot() {
        if 0x30 <= cmd[14] <= 0x34 { Ok((cmd[14] - 0x30) as u8) } else { Err(true) }
    } else if cmd.len() == 13 && cmd.subrange(5, 13) == t_carapace_word() {
        Ok(0)
    } else if cmd.len() == 7 && cmd.subrange(5, 7) == t_dot_dot() {
        Ok(255)
    } else {
        Err(false)
    }
}

/// The folder a line enters (see `dir_of`).
pub fn parse_dir(cmd: &[u8]) -> (res: Result<u8, bool>)
    ensures
        res == dir_of(cmd@),
{
    let n = cmd.len();
    if n == 15 && bytes_at(cmd, 5, &carapace_dot()) {
        let f = cmd[14];
        if 0x30 <= f && f <= 0x34 { Ok(f - 0x30) } else { Err(true) }
    } else if n == 13 && bytes_at(cmd, 5, &carapace_word()) {
        Ok(0)
    } else if n == 7 && bytes_at(cmd, 5, &dot_dot()) {
        Ok(255)
    } else {
        Err(false)
    }
}

/// The names of the active files of folder `dir` among the first `n`
/// slots, each on a line: the name in cyan, the newline in white.
pub open spec fn listing(t: Term, files: Seq<File>, dir: u8, n: int) -> Term
    decreases n,
{
    if n <= 0 {
        t
    } else {
        let t1 = listing(t, files, dir, n - 1);
        let f = files[n - 1];
        if f.active && f.folder_id == dir {
            printed(printed_all(t1, text_of(f.name@), 0x0B), 0x0a, 0x0F)
        } else {
            t1
        }
    }
}

/// A file of folder `dir`.
pub open spec fn in_folder(dir: u8) -> spec_fn(File) -> bool {
    |f: File| f.active && f.folder_id == dir
}

/// The typed line of a window.
pub open spec fn line_of(w: Window) -> Seq<u8> {
    w.buf@.take(w.buf_len as int)
}

/// A line gets the prompt back unless it is `r.close` or one of the two
/// misspelt game commands.
pub open spec fn prompt_after(cmd: Seq<u8>) -> bool {
    cmd != t_maker_slash() && cmd != t_dino_slash() && cmd != t_close_cmd()
}

/// The prompt, printed in green on an open window after a line that gets
/// it back.
pub open spec fn with_prompt(active: bool, cmd: Seq<u8>, t: Term) -> Term {
    if active && prompt_after(cmd) { printed_all(t, t_prompt(), 0x0A) } else { t }
}

/// The programs that a line starts; the app runs them and then calls
/// `finish_command`.
#[derive(Clone, Copy, Debug, PartialEq, Eq)]
pub enum Launch {
    Dino,
    Maker,
    Dungeon,
    Chest,
    Shutdown,
    Ide,
    Carapace,
    Claw,
    /// Runs the script in this file slot, in the window's folder.
    Script(usize),
}

/// What a window shows after a line that only prints, before the prompt;
/// `t` is the window after the newline of the line.
pub open spec fn printing_effect(d: Desktop, id: int, t: Term) -> Term {
    let w = d.windows@[id];
    let cmd = line_of(w);
    let dir = d.win_dir@[id];
    match command_of(cmd) {
        Cmd::Neofetch => printed_all(printed_all(t, t_neofetch_art(), 0x0C), t_neofetch_os(), 0x0B),
        Cmd::Help => printed_all(t, t_help_text(), 0x0F),
        Cmd::Wash => Term { cx: 0, cy: 0, cells: blank_cells() },
        Cmd::ChangeDir => match dir_of(cmd) {
            Ok(_) => t,
            Err(true) => printed_all(t, t_invalid_folder(), 0x0C),
            Err(false) => printed_all(t, t_unknown_dir(), 0x0C),
        },
        Cmd::ListFiles => if dir == 255 {
            printed_all(t, t_not_in_folder(), 0x0C)
        } else if none_with(d.vfs.files@, in_folder(dir)) {
            printed_all(t, t_folder_empty(), 0x0F)
        } else {
            listing(t, d.vfs.files@, dir, 10)
        },
        Cmd::Exec => if dir == 255 {
            printed_all(t, t_not_in_folder(), 0x0C)
        } else {
            printed_all(t, t_not_found(), 0x0C)
        },
        _ => if w.buf_len > 0 { printed_all(t, t_unknown_cmd(), 0x0C) } else { t },
    }
}

/// The file slot that `r.ex` runs from window `id`, if any.
pub open spec fn exec_target(d: Desktop, id: int) -> int {
    let cmd = line_of(d.windows@[id]);
    first_index(d.vfs.files@, in_folder_named(d.win_dir@[id], cmd.subrange(5, cmd.len() as int)))
}

/// The program that a line starts, if any.
pub open spec fn launch_of(d: Desktop, id: int) -> Option<Launch> {
    match command_of(line_of(d.windows@[id])) {
        Cmd::Dino => Some(Launch::Dino),
        Cmd::Maker => Some(Launch::Maker),
        Cmd::Dungeon => Some(Launch::Dungeon),
        Cmd::Chest => Some(Launch::Chest),
        Cmd::Shutdown => Some(Launch::Shutdown),
        Cmd::Ide => Some(Launch::Ide),
        Cmd::Carapace => Some(Launch::Carapace),
        Cmd::Claw => Some(Launch::Claw),
        Cmd::Exec => if d.win_dir@[id] != 255 && exec_target(d, id) < 10 {
            Some(Launch::Script(exec_target(d, id) as usize))
        } else {
            None
        },
        _ => None,
    }
}

/// Window `w1` is `w0` with this activity, command length and text.
pub open spec fn win_is(w1: Window, w0: Window, active: bool, buf_len: int, t: Term) -> bool {
    &&& w1.active == active
    &&& w1.x == w0.x && w1.y == w0.y && w1.w == w0.w && w1.h == w0.h
    &&& w1.buf@ == w0.buf@
    &&& w1.buf_len == buf_len
    &&& w1.term() == t
}

/// The desktop has booted: the main window is open, and so is the focused
/// one.
pub open spec fn booted(d: Desktop) -> bool {
    d.windows@[0].active && d.windows@[d.focused as int].active
}

/// A closed window.
pub open spec fn closed_window() -> spec_fn(Window) -> bool {
    |w: Window| !w.active
}

/// Window `w1` is `w0` opened afresh: greeted, with the prompt and an empty
/// line.
pub open spec fn opened_window(w1: Window, w0: Window) -> bool {
    win_is(w1, w0, true, 0, printed_all(Term { cx: 0, cy: 0, cells: blank_cells() },
        t_welcome() + t_type_help() + t_prompt(), 0x0A))
}

/// What a typed line does to the desktop `d0` when it starts no program,
/// window `id` having printed the line's newline (`t1`).
pub open spec fn line_done(d0: Desktop, d1: Desktop, id: int) -> bool {
    let w0 = d0.windows@[id];
    let cmd = line_of(w0);
    let t1 = printed(w0.term(), 0x0a, 0x0F);
    let ws = d0.windows@;
    match command_of(cmd) {
        Cmd::New => {
            let j = first_index(ws, closed_window());
            if j < 3 {
                &&& d1.focused == j
                &&& d1.keep_rest_but_focus(d0)
                &&& opened_window(d1.windows@[j], ws[j])
                &&& win_is(d1.windows@[id], w0, true, 0, with_prompt(true, cmd, t1))
                &&& forall|k: int| 0 <= k < 3 && k != j && k != id ==> d1.windows@[k] == ws[k]
            } else {
                &&& d1.others_same(d0, id)
                &&& win_is(d1.windows@[id], w0, true, 0,
                    with_prompt(true, cmd, printed_all(t1, t_max_windows(), 0x0C)))
            }
        },
        Cmd::Close => if id != 0 {
            let closed = ws.update(id, Window { active: false, ..w0 });
            &&& d1.focused == first_open(closed)
            &&& d1.keep_rest_but_focus(d0)
            &&& win_is(d1.windows@[id], w0, false, 0, t1)
            &&& forall|k: int| 0 <= k < 3 && k != id ==> d1.windows@[k] == ws[k]
        } else {
            &&& d1.others_same(d0, id)
            &&& win_is(d1.windows@[id], w0, w0.active, 0, printed_all(t1, t_cannot_close(), 0x0C))
        },
        Cmd::ChangeDir => {
            &&& forall|k: int| 0 <= k < 3 && k != id ==> d1.windows@[k] == ws[k]
            &&& d1.win_dir@ == (match dir_of(cmd) {
                Ok(dir) => d0.win_dir@.update(id, dir),
                Err(_) => d0.win_dir@,
            })
            &&& d1.focused == d0.focused
            &&& d1.mouse_x == d0.mouse_x && d1.mouse_y == d0.mouse_y
            &&& d1.shift == d0.shift && d1.dragging == d0.dragging && d1.prev_left == d0.prev_left
            &&& d1.vfs.files@ == d0.vfs.files@ && d1.vars@ == d0.vars@
            &&& d1.compositor.last@ == d0.compositor.last@
            &&& d1.compositor.needs_redraw == d0.compositor.needs_redraw
            &&& win_is(d1.windows@[id], w0, w0.active, 0, with_prompt(w0.active, cmd, printing_effect(d0, id, t1)))
        },
        _ => {
            &&& d1.others_same(d0, id)
            &&& win_is(d1.windows@[id], w0, w0.active, 0, with_prompt(w0.active, cmd, printing_effect(d0, id, t1)))
        },
    }
}

impl Desktop {
    /// Lists the files of the window's folder (see `printing_effect`).
    fn list_files(&mut self, id: usize)
        requires
            old(self).wf(),
            id < 3,
        ensures
            final(self).wf(),
            final(self).others_same(*old(self), id as int),
            final(self).windows@[id as int].same_frame(old(self).windows@[id as int]),
            final(self).windows@[id as int].term() == (if old(self).win_dir@[id as int] == 255 {
                printed_all(old(self).windows@[id as int].term(), t_not_in_folder(), 0x0C)
            } else if none_with(old(self).vfs.files@, in_folder(old(self).win_dir@[id as int])) {
                printed_all(old(self).windows@[id as int].term(), t_folder_empty(), 0x0F)
            } else {
                listing(old(self).windows@[id as int].term(), old(self).vfs.files@, old(self).win_dir@[id as int], 10)
            }),
    {
        let dir = self.win_dir[id];
        if dir == 255 {
            self.print(id, &not_in_folder(), 0x0C);
            return;
        }
        let ghost t0 = self.windows@[id as int].term();
        let ghost files = self.vfs.files@;
        let mut found_any = false;
        let mut i: usize = 0;
        while i < 10
            invariant
                i <= 10,
                id < 3,
                self.wf(),
                self.others_same(*old(self), id as int),
                self.windows@[id as int].same_frame(old(self).windows@[id as int]),
                files == self.vfs.files@,
                t0 == old(self).windows@[id as int].term(),
                dir == old(self).win_dir@[id as int],
                self.windows@[id as int].term() == listing(t0, files, dir, i as int),
                found_any == exists|j: int| 0 <= j < i && (in_folder(dir))(#[trigger] files[j]),
            decreases 10 - i,
        {
            let f = self.vfs.files[i];
            if f.active && f.folder_id == dir {
                let n = f.name_len();
                let nm = copy_range(&f.name, 0, n);
                assert(nm@ =~= text_of(f.name@));
                self.print(id, nm.as_slice(), 0x0B);
                self.print_char(id, 0x0a, 0x0F);
                found_any = true;
            }
            i = i + 1;
        }
        if !found_any {
            assert(none_with(files, in_folder(dir)));
            assert(listing(t0, files, dir, 10) == t0) by {
                lemma_listing_empty(t0, files, dir, 10);
            }
            self.print(id, &folder_empty(), 0x0F);
        } else {
            assert(!none_with(files, in_folder(dir)));
        }
    }

    /// The commands that only print: see `printing_effect`.
    fn run_printing(&mut self, id: usize, cmd: &[u8], kind: Cmd)
        requires
            old(self).wf(),
            id < 3,
            cmd@ == line_of(old(self).windows@[id as int]),
            kind == command_of(cmd@),
            kind == Cmd::Neofetch || kind == Cmd::Help || kind == Cmd::Wash || kind == Cmd::ListFiles
                || kind == Cmd::Other || kind == Cmd::Shutdown || kind == Cmd::Dino,
        ensures
            final(self).wf(),
            final(self).others_same(*old(self), id as int),
            final(self).windows@[id as int].same_frame(old(self).windows@[id as int]),
            kind != Cmd::Shutdown && kind != Cmd::Dino ==> final(self).windows@[id as int].term()
                == printing_effect(*old(self), id as int, old(self).windows@[id as int].term()),
    {
        let ghost t0 = self.windows@[id as int].term();
        match kind {
            Cmd::Neofetch => {
                self.print(id, &neofetch_art(), 0x0C);
                self.print(id, &neofetch_os(), 0x0B);
            },
            Cmd::Help => {
                self.print(id, &help_text(), 0x0F);
            },
            Cmd::Wash => {
                self.clear(id);
            },
            Cmd::ListFiles => {
                self.list_files(id);
            },
            Cmd::Other => {
                if self.windows[id].buf_len > 0 {
                    self.print(id, &unknown_cmd(), 0x0C);
                }
            },
            _ => {},
        }
    }
}

proof fn lemma_listing_empty(t: Term, files: Seq<File>, dir: u8, n: int)
    requires
        n <= files.len(),
        none_with(files, in_folder(dir)),
    ensures
        listing(t, files, dir, n) == t,
    decreases n,
{
    if n > 0 {
        assert(!(in_folder(dir))(files[n - 1]));
        lemma_listing_empty(t, files, dir, n - 1);
    }
}

impl Desktop {
    /// Empties the line of window `id` and, after a line that gets it back,
    /// prints the prompt on it when it is open.
    fn line_tail(&mut self, id: usize, cmd: &[u8])
        requires
            old(self).wf(),
            id < 3,
        ensures
            final(self).wf(),
            final(self).others_same(*old(self), id as int),
            win_is(final(self).windows@[id as int], old(self).windows@[id as int],
                old(self).windows@[id as int].active, 0,
                with_prompt(old(self).windows@[id as int].active, cmd@, old(self).windows@[id as int].term())),
    {
        self.windows[id].buf_len = 0;
        if self.windows[id].active && !bytes_eq(cmd, &maker_slash()) && !bytes_eq(cmd, &dino_slash())
            && !bytes_eq(cmd, &close_cmd()) {
            self.print(id, &prompt(), 0x0A);
        }
    }

    /// Runs the line typed in the focused window `id`, after its newline has
    /// been printed: a program to start is returned (see `launch_of`) and
    /// left to the app; any other line has its effect (see `line_done`).
    pub fn run_line(&mut self, id: usize) -> (res: Option<Launch>)
        requires
            old(self).wf(),
            booted(*old(self)),
            id == old(self).focused,
        ensures
            final(self).wf(),
            booted(*final(self)),
            res == launch_of(*old(self), id as int),
            res is Some ==> {
                &&& final(self).others_same(*old(self), id as int)
                &&& win_is(final(self).windows@[id as int], old(self).windows@[id as int],
                    old(self).windows@[id as int].active, old(self).windows@[id as int].buf_len as int,
                    printed(old(self).windows@[id as int].term(), 0x0a, 0x0F))
            },
            res is None ==> line_done(*old(self), *final(self), id as int),
    {
        let w0 = self.windows[id];
        let cmd = copy_range(&w0.buf, 0, w0.buf_len);
        assert(cmd@ =~= line_of(w0));
        self.print_char(id, 0x0a, 0x0F);
        let ghost d1 = *self;
        let kind = parse_command(cmd.as_slice());
        match kind {
            Cmd::Dino => { return Some(Launch::Dino); },
            Cmd::Maker => { return Some(Launch::Maker); },
            Cmd::Dungeon => { return Some(Launch::Dungeon); },
            Cmd::Chest => { return Some(Launch::Chest); },
            Cmd::Shutdown => { return Some(Launch::Shutdown); },
            Cmd::Ide => { return Some(Launch::Ide); },
            Cmd::Carapace => { return Some(Launch::Carapace); },
            Cmd::Claw => { return Some(Launch::Claw); },
            Cmd::Exec => {
                let dir = self.win_dir[id];
                if dir == 255 {
                    self.print(id, &not_in_folder(), 0x0C);
                } else {
                    let fname = copy_range(cmd.as_slice(), 5, cmd.len());
                    proof {
                        lemma_first_index(self.vfs.files@, in_folder_named(dir, fname@));
                    }
                    match self.vfs.find_in_folder(dir, fname.as_slice()) {
                        Some(i) => {
                            proof {
                                lemma_first_index_is(self.vfs.files@, in_folder_named(dir, fname@), i as int);
                            }
                            return Some(Launch::Script(i));
                        },
                        None => {
                            self.print(id, &not_found(), 0x0C);
                        },
                    }
                }
                self.line_tail(id, cmd.as_slice());
            },
            Cmd::New => {
                proof {
                    lemma_first_index(old(self).windows@, closed_window());
                }
                let opened = self.open_new_window();
                match opened {
                    Some(j) => {
                        proof {
                            assert(j != id);
                            assert forall|k: int| 0 <= k < j implies !(closed_window())(#[trigger] old(self).windows@[k]) by {
                                assert(d1.windows@[k].active);
                                if k != id {
                                    assert(d1.windows@[k] == old(self).windows@[k]);
                                }
                            }
                            assert(old(self).windows@[j as int] == d1.windows@[j as int]);
                            lemma_first_index_is(old(self).windows@, closed_window(), j as int);
                        }
                    },
                    None => {
                        proof {
                            assert forall|k: int| 0 <= k < 3 implies !(closed_window())(#[trigger] old(self).windows@[k]) by {
                                assert(d1.windows@[k].active);
                                if k != id {
                                    assert(d1.windows@[k] == old(self).windows@[k]);
                                }
                            }
                        }
                    },
                }
                self.line_tail(id, cmd.as_slice());
            },
            Cmd::Close => {
                if id != 0 {
                    self.windows[id].active = false;
                    self.refocus();
                } else {
                    self.print(id, &cannot_close(), 0x0C);
                }
                self.line_tail(id, cmd.as_slice());
            },
            Cmd::ChangeDir => {
                match parse_dir(cmd.as_slice()) {
                    Ok(d) => {
                        self.win_dir[id] = d;
                    },
                    Err(bad_digit) => {
                        if bad_digit {
                            self.print(id, &invalid_folder(), 0x0C);
                        } else {
                            self.print(id, &unknown_dir(), 0x0C);
                        }
                    },
                }
                self.line_tail(id, cmd.as_slice());
            },
            _ => {
                self.run_printing(id, cmd.as_slice(), kind);
                self.line_tail(id, cmd.as_slice());
            },
        }
        None
    }
}

/// What finishing a program does to its window's text before the line is
/// emptied: the two games that clear the window get a fresh prompt, the
/// other full-window programs leave it blank.
pub open spec fn finish_effect(l: Launch, t: Term) -> Term {
    match l {
        Launch::Maker | Launch::Dungeon =>
            printed_all(Term { cx: 0, cy: 0, cells: blank_cells() }, t_prompt(), 0x0A),
        Launch::Chest | Launch::Ide | Launch::Carapace | Launch::Claw =>
            Term { cx: 0, cy: 0, cells: blank_cells() },
        _ => t,
    }
}

/// The shift state after a key: set by either shift key, cleared by
/// releasing it.
pub open spec fn shift_after(shift: bool, sc: u8) -> bool {
    if sc == 0x2A || sc == 0x36 { true } else if sc == 0xAA || sc == 0xB6 { false } else { shift }
}

/// The byte a key types into the focused window, if any: only presses
/// count, shift keys type nothing.
pub open spec fn typed(shift: bool, sc: u8) -> Option<u8> {
    if sc == 0x2A || sc == 0x36 || sc == 0xAA || sc == 0xB6 || sc >= 0x80 {
        None
    } else {
        spec_scancode_to_char(sc, shift)
    }
}

impl Desktop {
    /// Finishes the line of window `id` once the program it started has
    /// returned (see `finish_effect`); then the line is emptied and the
    /// prompt printed as after any other line.
    pub fn finish_command(&mut self, id: usize, l: Launch)
        requires
            old(self).wf(),
            id < 3,
        ensures
            final(self).wf(),
            booted(*old(self)) ==> booted(*final(self)),
            final(self).others_same(*old(self), id as int),
            win_is(final(self).windows@[id as int], old(self).windows@[id as int],
                old(self).windows@[id as int].active, 0,
                with_prompt(old(self).windows@[id as int].active, line_of(old(self).windows@[id as int]),
                    finish_effect(l, old(self).windows@[id as int].term()))),
    {
        let w0 = self.windows[id];
        let cmd = copy_range(&w0.buf, 0, w0.buf_len);
        assert(cmd@ =~= line_of(w0));
        match l {
            Launch::Maker | Launch::Dungeon => {
                self.clear(id);
                self.print(id, &prompt(), 0x0A);
            },
            Launch::Chest | Launch::Ide | Launch::Carapace | Launch::Claw => {
                self.clear(id);
            },
            _ => {},
        }
        self.line_tail(id, cmd.as_slice());
    }

    /// A key from the keyboard: the shift keys are tracked; a key that types
    /// a byte edits the line of the focused window (backspace removes the
    /// last byte, a byte is added while the line has room) and echoes it, and
    /// Enter runs the line (see `run_line`).
    pub fn on_key(&mut self, sc: u8) -> (res: Option<Launch>)
        requires
            old(self).wf(),
            booted(*old(self)),
        ensures
            final(self).wf(),
            booted(*final(self)),
            final(self).shift == shift_after(old(self).shift, sc),
            ({
                let id = old(self).focused as int;
                let w0 = old(self).windows@[id];
                let d0 = Desktop { shift: final(self).shift, ..*old(self) };
                match typed(old(self).shift, sc) {
                    None => res is None && final(self).others_same(d0, id) && final(self).windows@[id] == w0,
                    Some(c) => if c == 0x0a {
                        &&& res == launch_of(d0, id)
                        &&& res is Some ==> {
                            &&& final(self).others_same(d0, id)
                            &&& win_is(final(self).windows@[id], w0, w0.active, w0.buf_len as int,
                                printed(w0.term(), 0x0a, 0x0F))
                        }
                        &&& res is None ==> line_done(d0, *final(self), id)
                    } else if c == 0x08 {
                        &&& res is None
                        &&& final(self).others_same(d0, id)
                        &&& if w0.buf_len > 0 {
                            win_is(final(self).windows@[id], w0, w0.active, w0.buf_len - 1, printed(w0.term(), 0x08, 0x0F))
                        } else {
                            final(self).windows@[id] == w0
                        }
                    } else {
                        &&& res is None
                        &&& final(self).others_same(d0, id)
                        &&& if w0.buf_len < CMD_CAP {
                            &&& final(self).windows@[id].buf@ == w0.buf@.update(w0.buf_len as int, c)
                            &&& final(self).windows@[id].buf_len == w0.buf_len + 1
                            &&& final(self).windows@[id].active == w0.active
                            &&& final(self).windows@[id].x == w0.x && final(self).windows@[id].y == w0.y
                            &&& final(self).windows@[id].term() == printed(w0.term(), c, 0x0F)
                        } else {
                            final(self).windows@[id] == w0
                        }
                    },
                }
            }),
    {
        if sc == 0x2A || sc == 0x36 {
            self.shift = true;
            return None;
        }
        if sc == 0xAA || sc == 0xB6 {
            self.shift = false;
            return None;
        }
        if sc >= 0x80 {
            return None;
        }
        let id = self.focused;
        let c = match scancode_to_char(sc, self.shift) {
            Some(c) => c,
            None => {
                return None;
            },
        };
        if c == 0x0a {
            return self.run_line(id);
        }
        if c == 0x08 {
            if self.windows[id].buf_len > 0 {
                self.windows[id].buf_len = self.windows[id].buf_len - 1;
                self.print_char(id, 0x08, 0x0F);
            }
            return None;
        }
        if self.windows[id].buf_len < CMD_CAP {
            let len = self.windows[id].buf_len;
            self.windows[id].buf[len] = c;
            self.windows[id].buf_len = len + 1;
            self.print_char(id, c, 0x0F);
        }
        None
    }
}

} // verus!
