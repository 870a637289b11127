//! Ferris Maker: draw walls with the mouse, then walk Ferris between them.
use vstd::prelude::*;
use crate::screen::{Window, Term, Put, printed_all, put_all, blank_cells, WIN_W, WIN_H, WIN_CELLS};

verus! {

/// The map byte of a wall.
pub const WALL: u8 = 0x23;
/// The map byte of open ground.
pub const OPEN: u8 = 0x20;

/// The map of a new level: an open field inside a wall from row 2 down to
/// the second row from the bottom.
pub open spec fn initial_map() -> Seq<u8> {
    Seq::new(WIN_CELLS as nat, |k: int| {
        let x = k % (WIN_W as int);
        let y = k / (WIN_W as int);
        if k < WIN_W * WIN_H && ((y == 2 || y == WIN_H - 2) || (2 <= y < WIN_H - 1 && (x == 0 || x == WIN_W - 1))) {
            WALL
        } else {
            OPEN
        }
    })
}

/// Ferris's five-by-two body at `(x, y)` stays in the window and touches no
/// wall.
pub open spec fn free_at(map: Seq<u8>, x: int, y: int) -> bool {
    forall|cx: int, cy: int| 0 <= cx < 5 && 0 <= cy < 2 ==> {
        &&& 0 <= x + cx < WIN_W
        &&& 0 <= y + cy < WIN_H
        &&& #[trigger] map[(y + cy) * WIN_W + x + cx] != WALL
    }
}

/// The border of the field stands: rows 2 and `WIN_H - 2` are walls from
/// edge to edge, and so are the first and last columns between them.
pub open spec fn border_stands(map: Seq<u8>) -> bool {
    &&& map.len() == WIN_CELLS
    &&& forall|x: int| 0 <= x < WIN_W ==> #[trigger] map[2 * WIN_W + x] == WALL
    &&& forall|x: int| 0 <= x < WIN_W ==> #[trigger] map[(WIN_H - 2) * WIN_W + x] == WALL
    &&& forall|y: int| 2 <= y < WIN_H - 1 ==> #[trigger] map[y * WIN_W] == WALL
    &&& forall|y: int| 2 <= y < WIN_H - 1 ==> #[trigger] map[y * WIN_W + WIN_W - 1] == WALL
}

/// Drawing or clearing a cell strictly inside the border keeps the border.
proof fn lemma_border_kept(map: Seq<u8>, lx: int, ly: int, v: u8)
    requires
        border_stands(map),
        0 < lx < WIN_W - 1,
        2 < ly < WIN_H - 2,
    ensures
        border_stands(map.update(ly * WIN_W + lx, v)),
{
    let k = ly * WIN_W + lx;
    let m = map.update(k, v);
    assert forall|x: int| 0 <= x < WIN_W implies #[trigger] m[2 * WIN_W + x] == WALL by {
        assert(k != 2 * WIN_W + x);
    }
    assert forall|x: int| 0 <= x < WIN_W implies #[trigger] m[(WIN_H - 2) * WIN_W + x] == WALL by {
        assert(k != (WIN_H - 2) * WIN_W + x);
    }
    assert forall|y: int| 2 <= y < WIN_H - 1 implies #[trigger] m[y * WIN_W] == WALL by {
        assert(k != y * WIN_W);
    }
    assert forall|y: int| 2 <= y < WIN_H - 1 implies #[trigger] m[y * WIN_W + WIN_W - 1] == WALL by {
        assert(k != y * WIN_W + WIN_W - 1);
    }
}

/// The border of a new level stands.
proof fn lemma_initial_border()
    ensures
        border_stands(initial_map()),
{
    let m = initial_map();
    assert forall|x: int| 0 <= x < WIN_W implies #[trigger] m[2 * WIN_W + x] == WALL by {
        assert((2 * WIN_W + x) % (WIN_W as int) == x && (2 * WIN_W + x) / (WIN_W as int) == 2);
    }
    assert forall|x: int| 0 <= x < WIN_W implies #[trigger] m[(WIN_H - 2) * WIN_W + x] == WALL by {
        assert(((WIN_H - 2) * WIN_W + x) % (WIN_W as int) == x);
        assert(((WIN_H - 2) * WIN_W + x) / (WIN_W as int) == WIN_H - 2);
    }
    assert forall|y: int| 2 <= y < WIN_H - 1 implies #[trigger] m[y * WIN_W] == WALL by {
        assert((y * WIN_W) % (WIN_W as int) == 0);
        assert((y * WIN_W) / (WIN_W as int) == y);
    }
    assert forall|y: int| 2 <= y < WIN_H - 1 implies #[trigger] m[y * WIN_W + WIN_W - 1] == WALL by {
        assert((y * WIN_W + WIN_W - 1) % (WIN_W as int) == WIN_W - 1);
        assert((y * WIN_W + WIN_W - 1) / (WIN_W as int) == y);
    }
}

/// Where Ferris fits, none of the ten cells of its five-by-two body is a
/// wall, and all of them are in the window.
pub proof fn lemma_fit_means_clear(map: Seq<u8>, x: int, y: int, cx: int, cy: int)
    requires
        free_at(map, x, y),
        0 <= cx < 5,
        0 <= cy < 2,
    ensures
        0 <= x + cx < WIN_W,
        0 <= y + cy < WIN_H,
        map[(y + cy) * WIN_W + x + cx] != WALL,
{
    assert(map[(y + cy) * WIN_W + x + cx] != WALL);
}

/// A game of Ferris Maker.
pub struct Maker {
    pub map: [u8; 750],
    pub is_editing: bool,
    pub ferris_x: i32,
    pub ferris_y: i32,
}

/// What a key does to the game.
#[derive(Clone, Copy, Debug, PartialEq, Eq)]
pub enum MakerKey {
    Continue,
    Quit,
}

/// Where a key moves Ferris from `(x, y)`: W, S, A, D move up, down, left,
/// right.
pub open spec fn step_of(sc: u8, x: int, y: int) -> (int, int) {
    (if sc == 0x1E { x - 1 } else if sc == 0x20 { x + 1 } else { x },
     if sc == 0x11 { y - 1 } else if sc == 0x1F { y + 1 } else { y })
}

impl Maker {
    /// Ferris is inside the window, and the field's border walls stand.
    pub open spec fn wf(&self) -> bool {
        &&& 0 <= self.ferris_x <= WIN_W - 5
        &&& 0 <= self.ferris_y <= WIN_H - 2
        &&& border_stands(self.map@)
    }

    /// A new game: the initial map, in edit mode, Ferris at (5, 5).
    pub fn new() -> (res: Maker)
        ensures
            res.wf(),
            res.map@ == initial_map(),
            res.is_editing,
            res.ferris_x == 5 && res.ferris_y == 5,
    {
        let mut map = [OPEN; 750];
        let w = WIN_W;
        let h = WIN_H;
        let mut k: usize = 0;
        while k < WIN_CELLS
            invariant
                k <= WIN_CELLS,
                w == WIN_W && h == WIN_H,
                forall|j: int| 0 <= j < k ==> map@[j] == initial_map()[j],
            decreases WIN_CELLS - k,
        {
            let x = k % w;
            let y = k / w;
            if k < w * h && ((y == 2 || y == h - 2) || (2 <= y && y < h - 1 && (x == 0 || x == w - 1))) {
                map[k] = WALL;
            } else {
                map[k] = OPEN;
            }
            k = k + 1;
        }
        assert(map@ =~= initial_map());
        proof {
            lemma_initial_border();
        }
        Maker { map, is_editing: true, ferris_x: 5, ferris_y: 5 }
    }

    /// A mouse report while editing, with the window at `(win_x, win_y)`
    /// and the pointer at `(mx, my)`: inside the walled field (not on its
    /// border) the left button builds a wall and the right one clears it.
    pub fn edit(&mut self, win_x: usize, win_y: usize, mx: i32, my: i32, left: bool, right: bool)
        requires
            old(self).wf(),
            win_x + WIN_W <= 80,
            win_y + WIN_H <= 25,
        ensures
            final(self).wf(),
            final(self).is_editing == old(self).is_editing,
            final(self).ferris_x == old(self).ferris_x,
            final(self).ferris_y == old(self).ferris_y,
            ({
                let lx = mx - win_x;
                let ly = my - win_y;
                let inside = old(self).is_editing && 0 <= lx < WIN_W && 0 < ly < WIN_H - 1
                    && 2 < ly < WIN_H - 2 && 0 < lx < WIN_W - 1;
                let k = ly * WIN_W + lx;
                final(self).map@ == (if inside && (left || right) {
                    old(self).map@.update(k, if right { OPEN } else { WALL })
                } else {
                    old(self).map@
                })
            }),
    {
        if !self.is_editing {
            return;
        }
        let wx = win_x as i32;
        let wy = win_y as i32;
        let w = WIN_W as i32;
        let h = WIN_H as i32;
        if mx >= wx && mx < wx + w && my > wy && my < wy + h - 1 {
            let lx = (mx - wx) as usize;
            let ly = (my - wy) as usize;
            if ly > 2 && ly < WIN_H - 2 && lx > 0 && lx < WIN_W - 1 {
                let k = ly * WIN_W + lx;
                proof {
                    lemma_border_kept(self.map@, lx as int, ly as int, WALL);
                    lemma_border_kept(self.map@, lx as int, ly as int, OPEN);
                    lemma_border_kept(self.map@.update(k as int, WALL), lx as int, ly as int, OPEN);
                }
                if left {
                    self.map[k] = WALL;
                }
                if right {
                    self.map[k] = OPEN;
                }
            }
        }
    }

    /// Whether the cell `(px, py)` is in the window and holds no wall.
    fn cell_ok(&self, px: i32, py: i32) -> (res: bool)
        ensures
            res == (0 <= px < WIN_W && 0 <= py < WIN_H && self.map@[py * WIN_W + px] != WALL),
    {
        if px < 0 || px >= WIN_W as i32 || py < 0 || py >= WIN_H as i32 {
            return false;
        }
        self.map[(py as usize) * WIN_W + px as usize] != WALL
    }

    /// Whether Ferris could stand at `(x, y)`.
    fn fits(&self, x: i32, y: i32) -> (res: bool)
        requires
            -2 <= x <= WIN_W,
            -2 <= y <= WIN_H,
        ensures
            res == free_at(self.map@, x as int, y as int),
    {
        let r = self.cell_ok(x, y) && self.cell_ok(x + 1, y) && self.cell_ok(x + 2, y)
            && self.cell_ok(x + 3, y) && self.cell_ok(x + 4, y) && self.cell_ok(x, y + 1)
            && self.cell_ok(x + 1, y + 1) && self.cell_ok(x + 2, y + 1) && self.cell_ok(x + 3, y + 1)
            && self.cell_ok(x + 4, y + 1);
        proof {
            if r {
                assert forall|cx: int, cy: int| 0 <= cx < 5 && 0 <= cy < 2 implies {
                    &&& 0 <= x + cx < WIN_W
                    &&& 0 <= y + cy < WIN_H
                    &&& #[trigger] self.map@[(y + cy) * WIN_W + x + cx] != WALL
                } by {
                    assert(cx == 0 || cx == 1 || cx == 2 || cx == 3 || cx == 4);
                    assert(cy == 0 || cy == 1);
                }
            } else if free_at(self.map@, x as int, y as int) {
                assert(self.map@[(y + 0) * WIN_W + x + 0] != WALL);
                assert(self.map@[(y + 0) * WIN_W + x + 1] != WALL);
                assert(self.map@[(y + 0) * WIN_W + x + 2] != WALL);
                assert(self.map@[(y + 0) * WIN_W + x + 3] != WALL);
                assert(self.map@[(y + 0) * WIN_W + x + 4] != WALL);
                assert(self.map@[(y + 1) * WIN_W + x + 0] != WALL);
                assert(self.map@[(y + 1) * WIN_W + x + 1] != WALL);
                assert(self.map@[(y + 1) * WIN_W + x + 2] != WALL);
                assert(self.map@[(y + 1) * WIN_W + x + 3] != WALL);
                assert(self.map@[(y + 1) * WIN_W + x + 4] != WALL);
            }
        }
        r
    }

    /// A key: ESC quits, E edits, P starts play with Ferris at (5, 5); while
    /// playing, W, A, S, D move Ferris where its body fits.
    pub fn key(&mut self, sc: u8) -> (res: MakerKey)
        requires
            old(self).wf(),
        ensures
            final(self).wf(),
            final(self).map@ == old(self).map@,
            res == (if sc == 0x01 { MakerKey::Quit } else { MakerKey::Continue }),
            sc == 0x01 ==> *final(self) == *old(self),
            sc == 0x12 ==> final(self).is_editing && final(self).ferris_x == old(self).ferris_x
                && final(self).ferris_y == old(self).ferris_y,
            sc == 0x19 ==> !final(self).is_editing && final(self).ferris_x == 5 && final(self).ferris_y == 5,
            sc != 0x19 && (final(self).ferris_x != old(self).ferris_x || final(self).ferris_y != old(self).ferris_y)
                ==> forall|cx: int, cy: int| 0 <= cx < 5 && 0 <= cy < 2 ==>
                    #[trigger] final(self).map@[(final(self).ferris_y + cy) * WIN_W + final(self).ferris_x + cx] != WALL,
            sc != 0x01 && sc != 0x12 && sc != 0x19 ==> {
                let (nx, ny) = step_of(sc, old(self).ferris_x as int, old(self).ferris_y as int);
                &&& final(self).is_editing == old(self).is_editing
                &&& if !old(self).is_editing && free_at(old(self).map@, nx, ny) {
                    final(self).ferris_x == nx && final(self).ferris_y == ny
                } else {
                    final(self).ferris_x == old(self).ferris_x && final(self).ferris_y == old(self).ferris_y
                }
            },
    {
        if sc == 0x01 {
            return MakerKey::Quit;
        }
        if sc == 0x12 {
            self.is_editing = true;
        } else if sc == 0x19 {
            self.is_editing = false;
            self.ferris_x = 5;
            self.ferris_y = 5;
        } else if !self.is_editing {
            let mut nx = self.ferris_x;
            let mut ny = self.ferris_y;
            if sc == 0x11 {
                ny = ny - 1;
            }
            if sc == 0x1F {
                ny = ny + 1;
            }
            if sc == 0x1E {
                nx = nx - 1;
            }
            if sc == 0x20 {
                nx = nx + 1;
            }
            if self.fits(nx, ny) {
                proof {
                    assert(free_at(self.map@, nx as int, ny as int));
                    assert(0 <= nx + 0 < WIN_W && 0 <= nx + 4 < WIN_W) by {
                        assert(self.map@[(ny + 0) * WIN_W + nx + 0] != WALL);
                        assert(self.map@[(ny + 0) * WIN_W + nx + 4] != WALL);
                    }
                    assert(0 <= ny + 0 < WIN_H && 0 <= ny + 1 < WIN_H) by {
                        assert(self.map@[(ny + 0) * WIN_W + nx + 0] != WALL);
                        assert(self.map@[(ny + 1) * WIN_W + nx + 0] != WALL);
                    }
                }
                self.ferris_x = nx;
                self.ferris_y = ny;
            }
        }
        MakerKey::Continue
    }

    /// The walls that the game draws, in rows 2 to the second from the
    /// bottom, for the map cells before `k`.
    pub open spec fn wall_puts(map: Seq<u8>, k: int) -> Seq<Put>
        decreases k,
    {
        if k <= 2 * WIN_W {
            Seq::empty()
        } else {
            let rest = Self::wall_puts(map, k - 1);
            if map[k - 1] == WALL {
                rest.push(Put { x: ((k - 1) % (WIN_W as int)) as usize, y: ((k - 1) / (WIN_W as int)) as usize, c: 0xDB, color: 0x0A })
            } else {
                rest
            }
        }
    }

    /// The cells the game draws after its status line: the walls, then
    /// Ferris.
    pub open spec fn puts(&self) -> Seq<Put> {
        let x = self.ferris_x as usize;
        let y = self.ferris_y as usize;
        Self::wall_puts(self.map@, (WIN_H - 1) * WIN_W)
        + Seq::new(5, |i: int| Put { x: (x + i) as usize, y: y, c: ferris_top()[i], color: 0x0C })
        + Seq::new(5, |i: int| Put { x: (x + i) as usize, y: (y + 1) as usize, c: ferris_bottom()[i], color: 0x0C })
    }

    /// Draws the game: the window cleared, the status line of the mode in
    /// cyan, then the cells of `puts`.
    pub fn render(&self, win: &mut Window)
        requires
            self.wf(),
            old(win).wf(),
        ensures
            final(win).wf(),
            final(win).same_frame(*old(win)),
            ({
                let t = printed_all(Term { cx: 0, cy: 0, cells: blank_cells() },
                    if self.is_editing { edit_status() } else { play_status() }, 0x0B);
                final(win).term() == Term { cx: t.cx, cy: t.cy, cells: put_all(t.cells, self.puts()) }
            }),
    {
        win.win_clear();
        if self.is_editing {
            let st: [u8; 32] = [0x5b, 0x45, 0x44, 0x49, 0x54, 0x5d, 0x20, 0x50, 0x3a, 0x50, 0x6c, 0x61, 0x79,
                                0x20, 0x45, 0x53, 0x43, 0x3a, 0x51, 0x75, 0x69, 0x74, 0x20, 0x4c, 0x2f, 0x52,
                                0x3a, 0x44, 0x72, 0x61, 0x77, 0x20];
            assert(st@ =~= edit_status());
            win.win_print_str(&st, 0x0B);
        } else {
            let st: [u8; 32] = [0x5b, 0x50, 0x4c, 0x41, 0x59, 0x5d, 0x20, 0x45, 0x3a, 0x45, 0x64, 0x69, 0x74,
                                0x20, 0x45, 0x53, 0x43, 0x3a, 0x51, 0x75, 0x69, 0x74, 0x20, 0x57, 0x41, 0x53,
                                0x44, 0x3a, 0x4d, 0x6f, 0x76, 0x65];
            assert(st@ =~= play_status());
            win.win_print_str(&st, 0x0B);
        }
        let mut ps: Vec<Put> = Vec::new();
        let mut k: usize = 2 * WIN_W;
        assert(ps@ =~= Self::wall_puts(self.map@, k as int));
        while k < (WIN_H - 1) * WIN_W
            invariant
                2 * WIN_W <= k <= (WIN_H - 1) * WIN_W,
                ps@ == Self::wall_puts(self.map@, k as int),
            decreases (WIN_H - 1) * WIN_W - k,
        {
            if self.map[k] == WALL {
                ps.push(Put { x: k % WIN_W, y: k / WIN_W, c: 0xDB, color: 0x0A });
            }
            k = k + 1;
        }
        let ghost walls = ps@;
        let x = self.ferris_x as usize;
        let y = self.ferris_y as usize;
        let top: [u8; 5] = [0x28, 0x6f, 0x5f, 0x6f, 0x29];
        let bottom: [u8; 5] = [0x2f, 0x3e, 0x2d, 0x3c, 0x5c];
        assert(top@ =~= ferris_top());
        assert(bottom@ =~= ferris_bottom());
        let mut i: usize = 0;
        while i < 5
            invariant
                i <= 5,
                top@ == ferris_top(),
                x == self.ferris_x && y == self.ferris_y,
                ps@ == walls + Seq::new(i as nat, |j: int| Put { x: (x + j) as usize, y: y, c: ferris_top()[j], color: 0x0C }),
            decreases 5 - i,
        {
            ps.push(Put { x: x + i, y: y, c: top[i], color: 0x0C });
            assert(ps@ =~= walls + Seq::new((i + 1) as nat, |j: int| Put { x: (x + j) as usize, y: y, c: ferris_top()[j], color: 0x0C }));
            i = i + 1;
        }
        let ghost upper = ps@;
        let mut i: usize = 0;
        while i < 5
            invariant
                i <= 5,
                bottom@ == ferris_bottom(),
                x == self.ferris_x && y == self.ferris_y,
                y + 1 <= WIN_H,
                ps@ == upper + Seq::new(i as nat, |j: int| Put { x: (x + j) as usize, y: (y + 1) as usize, c: ferris_bottom()[j], color: 0x0C }),
            decreases 5 - i,
        {
            ps.push(Put { x: x + i, y: y + 1, c: bottom[i], color: 0x0C });
            assert(ps@ =~= upper + Seq::new((i + 1) as nat, |j: int| Put { x: (x + j) as usize, y: (y + 1) as usize, c: ferris_bottom()[j], color: 0x0C }));
            i = i + 1;
        }
        assert(ps@ =~= self.puts());
        win.draw_puts(&ps);
    }
}

/// "(o_o)", Ferris's top row.
pub open spec fn ferris_top() -> Seq<u8> {
    seq![0x28u8, 0x6f, 0x5f, 0x6f, 0x29]
}

/// "/>-<\", Ferris's bottom row.
pub open spec fn ferris_bottom() -> Seq<u8> {
    seq![0x2fu8, 0x3e, 0x2d, 0x3c, 0x5c]
}

/// "[EDIT] P:Play ESC:Quit L/R:Draw ".
pub open spec fn edit_status() -> Seq<u8> {
    seq![0x5bu8, 0x45, 0x44, 0x49, 0x54, 0x5d, 0x20, 0x50, 0x3a, 0x50, 0x6c, 0x61, 0x79,
         0x20, 0x45, 0x53, 0x43, 0x3a, 0x51, 0x75, 0x69, 0x74, 0x20, 0x4c, 0x2f, 0x52,
         0x3a, 0x44, 0x72, 0x61, 0x77, 0x20]
}

/// "[PLAY] E:Edit ESC:Quit WASD:Move".
pub open spec fn play_status() -> Seq<u8> {
    seq![0x5bu8, 0x50, 0x4c, 0x41, 0x59, 0x5d, 0x20, 0x45, 0x3a, 0x45, 0x64, 0x69, 0x74,
         0x20, 0x45, 0x53, 0x43, 0x3a, 0x51, 0x75, 0x69, 0x74, 0x20, 0x57, 0x41, 0x53,
         0x44, 0x3a, 0x4d, 0x6f, 0x76, 0x65]
}

} // verus!
