//! Ferris Dino: jump over the obstacles that run at Ferris.
use vstd::prelude::*;
use crate::screen::{Window, Term, Put, printed_all, put_all, blank_cells, WIN_W, WIN_H, lemma_printed_all_concat};
use crate::script::{dec_text, dec_digits};

verus! {

/// The row Ferris stands on.
pub const GROUND: i32 = 11;
/// The column of Ferris's left edge.
pub const FERRIS_X: i32 = 5;
/// The pitch of the point sound.
pub const POINT_FREQ: u32 = 1046;

/// How far above the ground Ferris is while a jump has this velocity left to
/// apply: the jump starts at -3 and gains one every second frame.
pub open spec fn jump_height(v: int) -> int {
    if v == -3 { 0 }
    else if v == -2 { 3 }
    else if v == -1 { 5 }
    else if v == 0 { 6 }
    else if v == 1 { 6 }
    else if v == 2 { 5 }
    else { 3 }
}

/// A game of Ferris Dino.
pub struct Jump {
    pub ferris_y: i32,
    pub velocity: i32,
    pub is_jumping: bool,
    pub obs_x: i32,
    pub score: u32,
    pub tick: u32,
    pub sound_timer: u32,
    pub cloud_x: i32,
}

/// What a key does to the game.
#[derive(Clone, Copy, Debug, PartialEq, Eq)]
pub enum JumpKey {
    Continue,
    Quit,
}

/// What a frame of the game leads to.
#[derive(Clone, Copy, Debug, PartialEq, Eq)]
pub struct Advance {
    /// A point was scored: play the point sound.
    pub beep: bool,
    /// Ferris ran into the obstacle: the game is over.
    pub crashed: bool,
}

impl Jump {
    /// On the ground Ferris stands still; in a jump its height follows the
    /// velocity (see `jump_height`); the obstacle and the cloud are in the
    /// window.
    pub open spec fn wf(&self) -> bool {
        &&& (if self.is_jumping {
            -3 <= self.velocity <= 3 && self.ferris_y == GROUND - jump_height(self.velocity as int)
        } else {
            self.velocity == 0 && self.ferris_y == GROUND
        })
        &&& 0 <= self.obs_x <= WIN_W - 3
        &&& 0 <= self.cloud_x <= WIN_W - 5
        &&& self.sound_timer <= 4
    }

    /// A new game: Ferris on the ground, the obstacle at the right edge, the
    /// cloud ten cells from it.
    pub fn new() -> (res: Jump)
        ensures
            res.wf(),
            res.ferris_y == GROUND && !res.is_jumping && res.velocity == 0,
            res.obs_x == WIN_W - 3,
            res.cloud_x == WIN_W - 10,
            res.score == 0 && res.tick == 0 && res.sound_timer == 0,
    {
        Jump {
            ferris_y: GROUND,
            velocity: 0,
            is_jumping: false,
            obs_x: (WIN_W - 3) as i32,
            score: 0,
            tick: 0,
            sound_timer: 0,
            cloud_x: (WIN_W - 10) as i32,
        }
    }

    /// Starts a frame: counts it and runs down the point sound; true when
    /// the sound must stop now.
    pub fn begin_frame(&mut self) -> (stop: bool)
        requires
            old(self).wf(),
            old(self).tick < u32::MAX,
        ensures
            final(self).wf(),
            final(self).tick == old(self).tick + 1,
            final(self).sound_timer == (if old(self).sound_timer > 0 { old(self).sound_timer - 1 } else { 0 }),
            stop == (old(self).sound_timer == 1),
            final(self).ferris_y == old(self).ferris_y,
            final(self).velocity == old(self).velocity,
            final(self).is_jumping == old(self).is_jumping,
            final(self).obs_x == old(self).obs_x,
            final(self).score == old(self).score,
            final(self).cloud_x == old(self).cloud_x,
    {
        self.tick = self.tick + 1;
        if self.sound_timer > 0 {
            self.sound_timer = self.sound_timer - 1;
            return self.sound_timer == 0;
        }
        false
    }

    /// A key: space starts a jump from the ground (and restarts the frame
    /// count), ESC quits.
    pub fn key(&mut self, sc: u8) -> (res: JumpKey)
        requires
            old(self).wf(),
        ensures
            final(self).wf(),
            if sc == 0x39 && !old(self).is_jumping {
                &&& res == JumpKey::Continue
                &&& *final(self) == (Jump { velocity: -3i32, is_jumping: true, tick: 0, ..*old(self) })
            } else {
                &&& res == (if sc == 0x01 { JumpKey::Quit } else { JumpKey::Continue })
                &&& *final(self) == *old(self)
            },
    {
        if sc == 0x39 && !self.is_jumping {
            self.velocity = -3;
            self.is_jumping = true;
            self.tick = 0;
            JumpKey::Continue
        } else if sc == 0x01 {
            JumpKey::Quit
        } else {
            JumpKey::Continue
        }
    }

    /// The rest of a frame: on even frames a jump moves Ferris by its
    /// velocity, which then grows by one; Ferris lands on the ground; on
    /// even frames the obstacle moves left and comes back at the right edge
    /// with a point scored; every sixth frame the cloud moves left and wraps
    /// round. Ferris crashes when the obstacle is under it on the ground.
    pub fn advance(&mut self) -> (res: Advance)
        requires
            old(self).wf(),
            old(self).score < u32::MAX,
        ensures
            final(self).wf(),
            ({
                let g = *old(self);
                let even = g.tick % 2 == 0;
                let y1 = if g.is_jumping && even { g.ferris_y + g.velocity } else { g.ferris_y as int };
                let v1 = if g.is_jumping && even { g.velocity + 1 } else { g.velocity as int };
                let landed = y1 >= GROUND;
                let o1 = if even { g.obs_x - 1 } else { g.obs_x as int };
                let wrapped = even && o1 < 0;
                let c1 = if g.tick % 6 == 0 { g.cloud_x - 1 } else { g.cloud_x as int };
                &&& final(self).ferris_y == (if landed { GROUND as int } else { y1 })
                &&& final(self).velocity == (if landed { 0 } else { v1 })
                &&& final(self).is_jumping == (g.is_jumping && !landed)
                &&& final(self).obs_x == (if wrapped { WIN_W - 3 } else { o1 })
                &&& final(self).score == (if wrapped { g.score + 1 } else { g.score as int })
                &&& final(self).sound_timer == (if wrapped { 4 } else { g.sound_timer })
                &&& final(self).cloud_x == (if c1 < 0 { WIN_W - 5 } else { c1 })
                &&& final(self).tick == g.tick
                &&& res.beep == wrapped
                &&& res.crashed == (FERRIS_X <= final(self).obs_x <= FERRIS_X + 2 && final(self).ferris_y >= GROUND)
            }),
    {
        let even = self.tick % 2 == 0;
        if self.is_jumping && even {
            self.ferris_y = self.ferris_y + self.velocity;
            self.velocity = self.velocity + 1;
        }
        if self.ferris_y >= GROUND {
            self.ferris_y = GROUND;
            self.is_jumping = false;
            self.velocity = 0;
        }
        let mut beep = false;
        if even {
            self.obs_x = self.obs_x - 1;
            if self.obs_x < 0 {
                self.obs_x = (WIN_W - 3) as i32;
                self.score = self.score + 1;
                beep = true;
                self.sound_timer = 4;
            }
        }
        if self.tick % 6 == 0 {
            self.cloud_x = self.cloud_x - 1;
            if self.cloud_x < 0 {
                self.cloud_x = (WIN_W - 5) as i32;
            }
        }
        let crashed = self.obs_x >= FERRIS_X && self.obs_x <= FERRIS_X + 2 && self.ferris_y >= GROUND;
        Advance { beep, crashed }
    }

    /// The cells the game draws after its score line: the cloud, the
    /// ground, the obstacle and Ferris.
    pub open spec fn puts(&self) -> Seq<Put> {
        let cx = self.cloud_x as usize;
        let y = self.ferris_y as usize;
        let g = GROUND as usize;
        seq![Put { x: cx, y: 3, c: 0xDF, color: 0x0F },
             Put { x: (cx + 1) as usize, y: 3, c: 0xDF, color: 0x0F },
             Put { x: (cx + 2) as usize, y: 3, c: 0xDF, color: 0x0F }]
        + Seq::new(WIN_W as nat, |i: int| Put { x: i as usize, y: (g + 1) as usize, c: 0xCD, color: 0x0E })
        + seq![Put { x: self.obs_x as usize, y: g, c: 0xDB, color: 0x0A },
               Put { x: 5, y: (y - 1) as usize, c: 0x6f, color: 0x0C },
               Put { x: 6, y: (y - 1) as usize, c: 0x5f, color: 0x0C },
               Put { x: 7, y: (y - 1) as usize, c: 0x6f, color: 0x0C },
               Put { x: 5, y: y, c: 0x3e, color: 0x0C },
               Put { x: 6, y: y, c: 0x5f, color: 0x0C },
               Put { x: 7, y: y, c: 0x3c, color: 0x0C }]
    }

    /// Draws the game: the window cleared, "SCORE: " and the score in white,
    /// then the cells of `puts`.
    pub fn render(&self, win: &mut Window)
        requires
            self.wf(),
            old(win).wf(),
        ensures
            final(win).wf(),
            final(win).same_frame(*old(win)),
            ({
                let t = printed_all(Term { cx: 0, cy: 0, cells: blank_cells() },
                    score_label() + dec_digits(self.score as nat), 0x0F);
                final(win).term() == Term { cx: t.cx, cy: t.cy, cells: put_all(t.cells, self.puts()) }
            }),
    {
        win.win_clear();
        let ghost t0 = win.term();
        let label: [u8; 7] = [0x53, 0x43, 0x4f, 0x52, 0x45, 0x3a, 0x20];
        assert(label@ =~= score_label());
        win.win_print_str(&label, 0x0F);
        let digits = dec_text(self.score);
        win.win_print_str(digits.as_slice(), 0x0F);
        proof {
            lemma_printed_all_concat(t0, score_label(), digits@, 0x0F);
        }
        let cx = self.cloud_x as usize;
        let y = self.ferris_y as usize;
        let g = GROUND as usize;
        let mut ps: Vec<Put> = Vec::new();
        ps.push(Put { x: cx, y: 3, c: 0xDF, color: 0x0F });
        ps.push(Put { x: cx + 1, y: 3, c: 0xDF, color: 0x0F });
        ps.push(Put { x: cx + 2, y: 3, c: 0xDF, color: 0x0F });
        let ghost head = ps@;
        let mut i: usize = 0;
        while i < WIN_W
            invariant
                i <= WIN_W,
                g == GROUND,
                ps@ == head + Seq::new(i as nat, |k: int| Put { x: k as usize, y: (g + 1) as usize, c: 0xCD, color: 0x0E }),
            decreases WIN_W - i,
        {
            ps.push(Put { x: i, y: g + 1, c: 0xCD, color: 0x0E });
            assert(ps@ =~= head + Seq::new((i + 1) as nat, |k: int| Put { x: k as usize, y: (g + 1) as usize, c: 0xCD, color: 0x0E }));
            i = i + 1;
        }
        ps.push(Put { x: self.obs_x as usize, y: g, c: 0xDB, color: 0x0A });
        ps.push(Put { x: 5, y: y - 1, c: 0x6f, color: 0x0C });
        ps.push(Put { x: 6, y: y - 1, c: 0x5f, color: 0x0C });
        ps.push(Put { x: 7, y: y - 1, c: 0x6f, color: 0x0C });
        ps.push(Put { x: 5, y: y, c: 0x3e, color: 0x0C });
        ps.push(Put { x: 6, y: y, c: 0x5f, color: 0x0C });
        ps.push(Put { x: 7, y: y, c: 0x3c, color: 0x0C });
        assert(ps@ =~= self.puts());
        win.draw_puts(&ps);
    }

    /// The end of a game: the window cleared, "GAME OVER! SCORE: " and the
    /// score in red, then a newline and the prompt in green.
    pub fn render_game_over(&self, win: &mut Window)
        requires
            old(win).wf(),
        ensures
            final(win).wf(),
            final(win).same_frame(*old(win)),
            final(win).term() == printed_all(
                printed_all(Term { cx: 0, cy: 0, cells: blank_cells() },
                    game_over_label() + dec_digits(self.score as nat), 0x0C),
                seq![0x0au8, 0xee, 0x20], 0x0A),
    {
        win.win_clear();
        let ghost t0 = win.term();
        let label: [u8; 18] = [0x47, 0x41, 0x4d, 0x45, 0x20, 0x4f, 0x56, 0x45, 0x52, 0x21, 0x20,
                               0x53, 0x43, 0x4f, 0x52, 0x45, 0x3a, 0x20];
        assert(label@ =~= game_over_label());
        win.win_print_str(&label, 0x0C);
        let digits = dec_text(self.score);
        win.win_print_str(digits.as_slice(), 0x0C);
        proof {
            lemma_printed_all_concat(t0, game_over_label(), digits@, 0x0C);
        }
        let tail: [u8; 3] = [0x0a, 0xee, 0x20];
        assert(tail@ =~= seq![0x0au8, 0xee, 0x20]);
        win.win_print_str(&tail, 0x0A);
    }
}

/// "SCORE: ".
pub open spec fn score_label() -> Seq<u8> {
    seq![0x53u8, 0x43, 0x4f, 0x52, 0x45, 0x3a, 0x20]
}

/// "GAME OVER! SCORE: ".
pub open spec fn game_over_label() -> Seq<u8> {
    seq![0x47u8, 0x41, 0x4d, 0x45, 0x20, 0x4f, 0x56, 0x45, 0x52, 0x21, 0x20,
         0x53, 0x43, 0x4f, 0x52, 0x45, 0x3a, 0x20]
}

/// Ferris never rises more than six rows above the ground, and a jump
/// always ends back on it.
pub proof fn lemma_jump_bounded(g: Jump)
    requires
        g.wf(),
    ensures
        GROUND - 6 <= g.ferris_y <= GROUND,
{
}

} // verus!
