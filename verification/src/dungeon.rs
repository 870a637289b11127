//! Ferris Dungeon: walk down through random floors, fighting crabs.
use vstd::prelude::*;
use crate::screen::{Window, Term, Put, put_all, blank_cells, text_puts, push_text, WIN_W, WIN_H};
use crate::script::{dec_text, dec_digits};
use crate::text::{dungeon_title, crab_top, crab_bottom, hurt_top, hurt_bottom, delve, flee, hp_label, floor_label, died,
    t_dungeon_title, t_crab_top, t_crab_bottom, t_hurt_top, t_hurt_bottom, t_delve, t_flee, t_hp_label, t_floor_label, t_died};
use crate::search::{first_index, lemma_first_index, lemma_first_index_is};

verus! {

/// Cells of the dungeon map (only the window's width times height is used).
pub const MAP_CELLS: usize = 2000;
/// Ferris's full health.
pub const MAX_HP: i32 = 25;
/// Crab slots.
pub const MAX_ENEMIES: usize = 15;
/// The map byte of a wall.
pub const WALL: u8 = 0x23;
/// The map byte of the stairs down.
pub const STAIRS: u8 = 0x3e;
/// The map byte of open floor.
pub const FLOOR: u8 = 0x20;
/// The seed of the dungeon's random numbers.
pub const SEED: u32 = 918273;

/// A crab.
#[derive(Clone, Copy)]
pub struct Enemy {
    pub x: usize,
    pub y: usize,
    pub hp: i32,
    pub active: bool,
    pub kind: u8,
}

/// What the level generator has still to do.
#[derive(Clone, Copy, Debug, PartialEq, Eq)]
pub enum Gen {
    /// The level is ready to play.
    Ready,
    /// Walls, blocks and Ferris's start are to be laid out.
    Layout,
    /// The stairs are to be placed.
    Stairs,
    /// The crabs from this slot on are to be placed.
    Enemies(usize),
}

/// A game of Ferris Dungeon.
pub struct Dungeon {
    pub map: [u8; 2000],
    pub enemies: [Enemy; 15],
    pub hp: i32,
    pub depth: usize,
    pub px: usize,
    pub py: usize,
    pub seed: u32,
    pub pending: Gen,
}

/// The next random number: a linear congruential generator modulo 2^32.
pub open spec fn next_seed(s: u32) -> u32 {
    ((s as int * 1664525 + 1013904223) % 0x1_0000_0000) as u32
}

/// The border of the level: the first and the second-to-last rows, and
/// the first and the last columns above the last row, are walls.
pub open spec fn walls_ok(map: Seq<u8>) -> bool {
    &&& map.len() == MAP_CELLS
    &&& forall|x: int| 0 <= x < WIN_W ==> #[trigger] map[x] == WALL
    &&& forall|x: int| 0 <= x < WIN_W ==> #[trigger] map[(WIN_H - 2) * WIN_W + x] == WALL
    &&& forall|y: int| 0 <= y < WIN_H - 1 ==> #[trigger] map[y * WIN_W] == WALL
    &&& forall|y: int| 0 <= y < WIN_H - 1 ==> #[trigger] map[y * WIN_W + WIN_W - 1] == WALL
}

/// The map of a fresh level before its blocks: open floor inside the
/// border walls.
pub open spec fn layout_map() -> Seq<u8> {
    Seq::new(MAP_CELLS as nat, |k: int| {
        let x = k % (WIN_W as int);
        let y = k / (WIN_W as int);
        if k < WIN_W * WIN_H && (y == 0 || y == WIN_H - 2 || (y < WIN_H - 1 && (x == 0 || x == WIN_W - 1))) {
            WALL
        } else {
            FLOOR
        }
    })
}

/// The top left corner of a block from two random numbers.
pub open spec fn block_at(r1: u32, r2: u32) -> (int, int) {
    ((r1 % 4) as int * 8 + 4, (r2 % 2) as int * 4 + 2)
}

/// The map with a two-by-two block of wall at `(x, y)`.
pub open spec fn with_block(map: Seq<u8>, x: int, y: int) -> Seq<u8> {
    map.update(y * WIN_W + x, WALL)
        .update(y * WIN_W + x + 1, WALL)
        .update((y + 1) * WIN_W + x, WALL)
        .update((y + 1) * WIN_W + x + 1, WALL)
}

/// The map and seed after placing `n` blocks, each from two random numbers.
pub open spec fn blocks(map: Seq<u8>, seed: u32, n: nat) -> (Seq<u8>, u32)
    decreases n,
{
    if n == 0 {
        (map, seed)
    } else {
        let (m, s) = blocks(map, seed, (n - 1) as nat);
        let s1 = next_seed(s);
        let s2 = next_seed(s1);
        let (x, y) = block_at(s1, s2);
        (with_block(m, x, y), s2)
    }
}

/// Number of blocks a level gets.
pub const NUM_BLOCKS: usize = 10;

/// The map with Ferris's five-by-two start at (2, 2) cleared.
pub open spec fn cleared_start(map: Seq<u8>) -> Seq<u8> {
    Seq::new(map.len(), |k: int| {
        let x = k % (WIN_W as int);
        let y = k / (WIN_W as int);
        if 2 <= x < 7 && 2 <= y < 4 { FLOOR } else { map[k] }
    })
}

/// A column and a row for stairs or a crab, from two random numbers.
pub open spec fn spot(r1: u32, r2: u32) -> (int, int) {
    ((r1 % 36) as int + 3, (r2 % 8) as int + 2)
}

/// A crab's three-by-two body at `(ex, ey)` and Ferris's five-by-two body at
/// `(px, py)` overlap.
pub open spec fn overlaps(px: int, py: int, ex: int, ey: int) -> bool {
    ex < px + 5 && ex + 3 > px && ey < py + 2 && ey + 2 > py
}

/// Number of crabs on a floor.
pub open spec fn crab_count(depth: int) -> int {
    if depth + 2 < 15 { depth + 2 } else { 15 }
}

/// A live crab is inside the border and has health left.
pub open spec fn crab_ok(e: Enemy) -> bool {
    e.active ==> {
        &&& 1 <= e.x <= WIN_W - 4
        &&& 1 <= e.y <= WIN_H - 4
        &&& 0 < e.hp
    }
}

impl Dungeon {
    /// The border walls stand, Ferris stands on no wall, Ferris and every
    /// live crab are inside the border, Ferris's health is at most full, and
    /// the generator's slot is in range.
    pub open spec fn wf(&self) -> bool {
        &&& (self.pending != Gen::Layout ==> walls_ok(self.map@))
        &&& 1 <= self.px <= WIN_W - 6
        &&& 1 <= self.py <= WIN_H - 4
        &&& !box_has(self.map@, self.px as int, self.py as int, 5, WALL)
        &&& forall|i: int| 0 <= i < MAX_ENEMIES ==> crab_ok(#[trigger] self.enemies@[i])
        &&& -15 <= self.hp <= MAX_HP
        &&& 1 <= self.depth < 0x4000_0000
        &&& (self.pending matches Gen::Enemies(i) ==> i <= MAX_ENEMIES)
    }

    /// Draws the next random number.
    pub fn next_rand(&mut self) -> (r: u32)
        ensures
            final(self).seed == next_seed(old(self).seed),
            r == final(self).seed,
            final(self).map@ == old(self).map@,
            final(self).enemies@ == old(self).enemies@,
            final(self).hp == old(self).hp,
            final(self).depth == old(self).depth,
            final(self).px == old(self).px && final(self).py == old(self).py,
            final(self).pending == old(self).pending,
    {
        let s = ((self.seed as u64) * 1664525 + 1013904223) % 0x1_0000_0000;
        self.seed = s as u32;
        self.seed
    }
}

/// The map with the level's border laid out over its first `WIN_W * WIN_H`
/// cells (see `layout_map`); the cells beyond are kept.
pub open spec fn laid_out(map: Seq<u8>) -> Seq<u8> {
    Seq::new(map.len(), |k: int| if k < WIN_W * WIN_H { layout_map()[k] } else { map[k] })
}

/// Writing inside the border keeps it.
proof fn lemma_walls_kept(map: Seq<u8>, k: int, v: u8)
    requires
        walls_ok(map),
        1 <= k % (WIN_W as int) <= WIN_W - 2,
        1 <= k / (WIN_W as int) <= WIN_H - 3,
        0 <= k,
    ensures
        walls_ok(map.update(k, v)),
{
    let m = map.update(k, v);
    assert forall|x: int| 0 <= x < WIN_W implies #[trigger] m[x] == WALL by {
        assert(k != x);
    }
    assert forall|x: int| 0 <= x < WIN_W implies #[trigger] m[(WIN_H - 2) * WIN_W + x] == WALL by {
        assert(k != (WIN_H - 2) * WIN_W + x);
    }
    assert forall|y: int| 0 <= y < WIN_H - 1 implies #[trigger] m[y * WIN_W] == WALL by {
        assert(k != y * WIN_W);
    }
    assert forall|y: int| 0 <= y < WIN_H - 1 implies #[trigger] m[y * WIN_W + WIN_W - 1] == WALL by {
        assert(k != y * WIN_W + WIN_W - 1);
    }
}

impl Dungeon {
    /// Only the map and the seed may differ from `other`.
    pub open spec fn same_but_map(&self, other: Dungeon) -> bool {
        &&& self.enemies@ == other.enemies@
        &&& self.hp == other.hp
        &&& self.depth == other.depth
        &&& self.px == other.px
        &&& self.py == other.py
        &&& self.pending == other.pending
    }

    /// A new game on its title screen: full health, the first floor, the
    /// level still to be generated.
    pub fn new() -> (res: Dungeon)
        ensures
            res.wf(),
            res.hp == MAX_HP,
            res.depth == 1,
            res.seed == SEED,
            res.pending == Gen::Layout,
            res.px == 2 && res.py == 2,
            res.map@ == Seq::new(MAP_CELLS as nat, |k: int| FLOOR),
            forall|i: int| 0 <= i < MAX_ENEMIES ==> !(#[trigger] res.enemies@[i]).active,
    {
        let e = Enemy { x: 0, y: 0, hp: 0, active: false, kind: 0 };
        let res = Dungeon {
            map: [FLOOR; 2000],
            enemies: [e; 15],
            hp: MAX_HP,
            depth: 1,
            px: 2,
            py: 2,
            seed: SEED,
            pending: Gen::Layout,
        };
        assert(res.map@ =~= Seq::new(MAP_CELLS as nat, |k: int| FLOOR));
        res
    }

    /// Lays out the border over the first cells of the map.
    fn lay_out(&mut self)
        ensures
            final(self).map@ == laid_out(old(self).map@),
            walls_ok(final(self).map@),
            final(self).same_but_map(*old(self)),
            final(self).seed == old(self).seed,
    {
        let mut k: usize = 0;
        while k < WIN_W * WIN_H
            invariant
                k <= WIN_W * WIN_H,
                self.same_but_map(*old(self)),
                self.seed == old(self).seed,
                forall|j: int| 0 <= j < k ==> self.map@[j] == layout_map()[j],
                forall|j: int| k <= j < MAP_CELLS ==> self.map@[j] == old(self).map@[j],
            decreases WIN_W * WIN_H - k,
        {
            let x = k % WIN_W;
            let y = k / WIN_W;
            if y == 0 || y == WIN_H - 2 || (y < WIN_H - 1 && (x == 0 || x == WIN_W - 1)) {
                self.map[k] = WALL;
            } else {
                self.map[k] = FLOOR;
            }
            k = k + 1;
        }
        assert(self.map@ =~= laid_out(old(self).map@));
        let ghost m = self.map@;
        assert forall|x: int| 0 <= x < WIN_W implies #[trigger] m[x] == WALL by {
            assert(x % (WIN_W as int) == x && x / (WIN_W as int) == 0);
        }
        assert forall|x: int| 0 <= x < WIN_W implies #[trigger] m[(WIN_H - 2) * WIN_W + x] == WALL by {
            assert(((WIN_H - 2) * WIN_W + x) / (WIN_W as int) == WIN_H - 2);
        }
        assert forall|y: int| 0 <= y < WIN_H - 1 implies #[trigger] m[y * WIN_W] == WALL by {
            assert((y * WIN_W) % (WIN_W as int) == 0);
            assert((y * WIN_W) / (WIN_W as int) == y);
        }
        assert forall|y: int| 0 <= y < WIN_H - 1 implies #[trigger] m[y * WIN_W + WIN_W - 1] == WALL by {
            assert((y * WIN_W + WIN_W - 1) % (WIN_W as int) == WIN_W - 1);
            assert((y * WIN_W + WIN_W - 1) / (WIN_W as int) == y);
        }
    }

    /// Places one block from two random numbers.
    fn place_block(&mut self)
        requires
            walls_ok(old(self).map@),
        ensures
            walls_ok(final(self).map@),
            ({
                let s1 = next_seed(old(self).seed);
                let s2 = next_seed(s1);
                let (x, y) = block_at(s1, s2);
                &&& final(self).seed == s2
                &&& final(self).map@ == with_block(old(self).map@, x, y)
            }),
            final(self).same_but_map(*old(self)),
    {
        let r1 = self.next_rand();
        let r2 = self.next_rand();
        let rx = ((r1 % 4) * 8 + 4) as usize;
        let ry = ((r2 % 2) * 4 + 2) as usize;
        let ghost m0 = self.map@;
        proof {
            lemma_walls_kept(m0, (ry * WIN_W + rx) as int, WALL);
            lemma_walls_kept(m0.update(ry * WIN_W + rx, WALL), (ry * WIN_W + rx + 1) as int, WALL);
            lemma_walls_kept(m0.update(ry * WIN_W + rx, WALL).update(ry * WIN_W + rx + 1, WALL),
                ((ry + 1) * WIN_W + rx) as int, WALL);
            lemma_walls_kept(m0.update(ry * WIN_W + rx, WALL).update(ry * WIN_W + rx + 1, WALL)
                .update((ry + 1) * WIN_W + rx, WALL), ((ry + 1) * WIN_W + rx + 1) as int, WALL);
        }
        if rx + 1 < WIN_W && ry + 1 < WIN_H {
            self.map[ry * WIN_W + rx] = WALL;
            self.map[ry * WIN_W + rx + 1] = WALL;
            self.map[(ry + 1) * WIN_W + rx] = WALL;
            self.map[(ry + 1) * WIN_W + rx + 1] = WALL;
        }
    }

    /// Clears Ferris's start at (2, 2).
    fn clear_start(&mut self)
        requires
            walls_ok(old(self).map@),
        ensures
            walls_ok(final(self).map@),
            final(self).map@ == cleared_start(old(self).map@),
            final(self).same_but_map(*old(self)),
            final(self).seed == old(self).seed,
    {
        let mut k: usize = 0;
        while k < MAP_CELLS
            invariant
                k <= MAP_CELLS,
                walls_ok(self.map@),
                self.same_but_map(*old(self)),
                self.seed == old(self).seed,
                forall|j: int| 0 <= j < k ==> self.map@[j] == cleared_start(old(self).map@)[j],
                forall|j: int| k <= j < MAP_CELLS ==> self.map@[j] == old(self).map@[j],
            decreases MAP_CELLS - k,
        {
            let x = k % WIN_W;
            let y = k / WIN_W;
            if 2 <= x && x < 7 && 2 <= y && y < 4 {
                proof {
                    lemma_walls_kept(self.map@, k as int, FLOOR);
                }
                self.map[k] = FLOOR;
            }
            k = k + 1;
        }
        assert(self.map@ =~= cleared_start(old(self).map@));
    }
}

/// The crabs, all gone.
pub open spec fn all_gone(es: Seq<Enemy>) -> Seq<Enemy> {
    es.map_values(|e: Enemy| Enemy { active: false, ..e })
}

/// All crabs gone.
fn clear_enemies(es: [Enemy; 15]) -> (res: [Enemy; 15])
    ensures
        res@ == all_gone(es@),
        forall|j: int| 0 <= j < MAX_ENEMIES ==> !(#[trigger] res@[j]).active,
{
    let mut r = es;
    let mut i: usize = 0;
    while i < MAX_ENEMIES
        invariant
            i <= MAX_ENEMIES,
            forall|j: int| 0 <= j < i ==> r@[j] == all_gone(es@)[j],
            forall|j: int| i <= j < MAX_ENEMIES ==> r@[j] == es@[j],
        decreases MAX_ENEMIES - i,
    {
        r[i].active = false;
        i = i + 1;
    }
    assert(r@ =~= all_gone(es@));
    r
}

impl Dungeon {
    /// One step of generating a level; true once the level is ready.
    /// Laying out puts the border, ten random blocks and Ferris at (2, 2);
    /// the stairs go to a random spot far enough from Ferris (else the step
    /// is tried again) and all crabs go; then each crab of the floor goes to
    /// a random open spot that Ferris does not overlap (else tried again).
    pub fn gen_step(&mut self) -> (done: bool)
        requires
            old(self).wf(),
        ensures
            final(self).wf(),
            final(self).hp == old(self).hp,
            final(self).depth == old(self).depth,
            match old(self).pending {
                Gen::Ready => done && *final(self) == *old(self),
                Gen::Layout => {
                    let (m, s) = blocks(laid_out(old(self).map@), old(self).seed, NUM_BLOCKS as nat);
                    &&& !done
                    &&& final(self).pending == Gen::Stairs
                    &&& final(self).px == 2 && final(self).py == 2
                    &&& final(self).map@ == cleared_start(m)
                    &&& final(self).seed == s
                    &&& final(self).enemies@ == old(self).enemies@
                },
                Gen::Stairs => {
                    let s1 = next_seed(old(self).seed);
                    let s2 = next_seed(s1);
                    let (ex, ey) = spot(s1, s2);
                    &&& !done
                    &&& final(self).seed == s2
                    &&& final(self).px == old(self).px && final(self).py == old(self).py
                    &&& if ex > old(self).px + 10 || ey > old(self).py + 5 {
                        &&& final(self).map@ == old(self).map@.update(ey * WIN_W + ex, STAIRS)
                            .update(ey * WIN_W + ex + 1, STAIRS)
                        &&& final(self).enemies@ == all_gone(old(self).enemies@)
                        &&& final(self).pending == Gen::Enemies(0)
                    } else {
                        &&& final(self).map@ == old(self).map@
                        &&& final(self).enemies@ == old(self).enemies@
                        &&& final(self).pending == Gen::Stairs
                    }
                },
                Gen::Enemies(i) => if i >= crab_count(old(self).depth as int) {
                    done && *final(self) == Dungeon { pending: Gen::Ready, ..*old(self) }
                } else {
                    let s1 = next_seed(old(self).seed);
                    let s2 = next_seed(s1);
                    let (ex, ey) = spot(s1, s2);
                    &&& !done
                    &&& final(self).seed == s2
                    &&& final(self).map@ == old(self).map@
                    &&& final(self).px == old(self).px && final(self).py == old(self).py
                    &&& if !overlaps(old(self).px as int, old(self).py as int, ex, ey)
                        && old(self).map@[ey * WIN_W + ex] == FLOOR {
                        &&& final(self).enemies@ == old(self).enemies@.update(i as int, Enemy {
                            x: ex as usize, y: ey as usize, hp: (old(self).depth * 2) as i32, active: true, kind: 0 })
                        &&& final(self).pending == Gen::Enemies((i + 1) as usize)
                    } else {
                        &&& final(self).enemies@ == old(self).enemies@
                        &&& final(self).pending == Gen::Enemies(i)
                    }
                },
            },
    {
        match self.pending {
            Gen::Ready => true,
            Gen::Layout => {
                self.gen_layout();
                false
            },
            Gen::Stairs => {
                self.gen_stairs();
                false
            },
            Gen::Enemies(i) => {
                let count: usize = if self.depth + 2 < 15 { self.depth + 2 } else { 15 };
                if i >= count {
                    self.pending = Gen::Ready;
                    return true;
                }
                self.gen_enemy(i);
                false
            },
        }
    }

    fn gen_layout(&mut self)
        requires
            old(self).wf(),
            old(self).pending == Gen::Layout,
        ensures
            final(self).wf(),
            final(self).hp == old(self).hp,
            final(self).depth == old(self).depth,
            ({
                let (m, s) = blocks(laid_out(old(self).map@), old(self).seed, NUM_BLOCKS as nat);
                &&& final(self).pending == Gen::Stairs
                &&& final(self).px == 2 && final(self).py == 2
                &&& final(self).map@ == cleared_start(m)
                &&& final(self).seed == s
                &&& final(self).enemies@ == old(self).enemies@
            }),
    {
        self.lay_out();
        let ghost m0 = self.map@;
        let ghost s0 = self.seed;
        let mut n: usize = 0;
        while n < NUM_BLOCKS
            invariant
                n <= NUM_BLOCKS,
                walls_ok(self.map@),
                (self.map@, self.seed) == blocks(m0, s0, n as nat),
                self.same_but_map(*old(self)),
            decreases NUM_BLOCKS - n,
        {
            self.place_block();
            n = n + 1;
        }
        self.clear_start();
        self.px = 2;
        self.py = 2;
        self.pending = Gen::Stairs;
    }

    fn gen_stairs(&mut self)
        requires
            old(self).wf(),
            old(self).pending == Gen::Stairs,
        ensures
            final(self).wf(),
            final(self).hp == old(self).hp,
            final(self).depth == old(self).depth,
            ({
                let s1 = next_seed(old(self).seed);
                let s2 = next_seed(s1);
                let (ex, ey) = spot(s1, s2);
                &&& final(self).seed == s2
                &&& final(self).px == old(self).px && final(self).py == old(self).py
                &&& if ex > old(self).px + 10 || ey > old(self).py + 5 {
                    &&& final(self).map@ == old(self).map@.update(ey * WIN_W + ex, STAIRS)
                        .update(ey * WIN_W + ex + 1, STAIRS)
                    &&& final(self).enemies@ == all_gone(old(self).enemies@)
                    &&& final(self).pending == Gen::Enemies(0)
                } else {
                    &&& final(self).map@ == old(self).map@
                    &&& final(self).enemies@ == old(self).enemies@
                    &&& final(self).pending == Gen::Stairs
                }
            }),
    {
        let r1 = self.next_rand();
        let r2 = self.next_rand();
        let ex = (r1 % 36 + 3) as usize;
        let ey = (r2 % 8 + 2) as usize;
        if ex > self.px + 10 || ey > self.py + 5 {
            proof {
                lemma_walls_kept(self.map@, (ey * WIN_W + ex) as int, STAIRS);
                lemma_walls_kept(self.map@.update(ey * WIN_W + ex, STAIRS), (ey * WIN_W + ex + 1) as int, STAIRS);
            }
            self.map[ey * WIN_W + ex] = STAIRS;
            self.map[ey * WIN_W + ex + 1] = STAIRS;
            self.enemies = clear_enemies(self.enemies);
            self.pending = Gen::Enemies(0);
        }
    }

    fn gen_enemy(&mut self, i: usize)
        requires
            old(self).wf(),
            old(self).pending == Gen::Enemies(i),
            i < crab_count(old(self).depth as int),
        ensures
            final(self).wf(),
            final(self).hp == old(self).hp,
            final(self).depth == old(self).depth,
            ({
                let s1 = next_seed(old(self).seed);
                let s2 = next_seed(s1);
                let (ex, ey) = spot(s1, s2);
                &&& final(self).seed == s2
                &&& final(self).map@ == old(self).map@
                &&& final(self).px == old(self).px && final(self).py == old(self).py
                &&& if !overlaps(old(self).px as int, old(self).py as int, ex, ey)
                    && old(self).map@[ey * WIN_W + ex] == FLOOR {
                    &&& final(self).enemies@ == old(self).enemies@.update(i as int, Enemy {
                        x: ex as usize, y: ey as usize, hp: (old(self).depth * 2) as i32, active: true, kind: 0 })
                    &&& final(self).pending == Gen::Enemies((i + 1) as usize)
                } else {
                    &&& final(self).enemies@ == old(self).enemies@
                    &&& final(self).pending == Gen::Enemies(i)
                }
            }),
    {
        let r1 = self.next_rand();
        let r2 = self.next_rand();
        let ex = (r1 % 36 + 3) as usize;
        let ey = (r2 % 8 + 2) as usize;
        let px = self.px;
        let py = self.py;
        let overlap = ex < px + 5 && ex + 3 > px && ey < py + 2 && ey + 2 > py;
        if !overlap && self.map[ey * WIN_W + ex] == FLOOR {
            self.enemies[i] = Enemy { x: ex, y: ey, hp: (self.depth * 2) as i32, active: true, kind: 0 };
            self.pending = Gen::Enemies(i + 1);
        }
    }
}

/// Where Ferris tries to walk.
#[derive(Clone, Copy, Debug, PartialEq, Eq)]
pub enum Dir {
    Up,
    Down,
    Left,
    Right,
}

/// The direction a key walks in: W, S, A, D.
pub open spec fn dir_of_key(sc: u8) -> Option<Dir> {
    if sc == 0x11 { Some(Dir::Up) }
    else if sc == 0x1F { Some(Dir::Down) }
    else if sc == 0x1E { Some(Dir::Left) }
    else if sc == 0x20 { Some(Dir::Right) }
    else { None }
}

/// The direction a key walks in, if any.
pub fn key_dir(sc: u8) -> (res: Option<Dir>)
    ensures
        res == dir_of_key(sc),
{
    if sc == 0x11 { Some(Dir::Up) }
    else if sc == 0x1F { Some(Dir::Down) }
    else if sc == 0x1E { Some(Dir::Left) }
    else if sc == 0x20 { Some(Dir::Right) }
    else { None }
}

/// What a key means in Ferris Dungeon: ESC leaves, on the title screen as
/// in the game and after Ferris's end; Enter starts the game from the title
/// screen; W, S, A, D walk.
#[derive(Clone, Copy, Debug, PartialEq, Eq)]
pub enum DungeonKey {
    Leave,
    Start,
    Walk(Dir),
    Ignore,
}

/// What a key means (see `DungeonKey`).
pub open spec fn dungeon_key_of(sc: u8) -> DungeonKey {
    if sc == 0x01 {
        DungeonKey::Leave
    } else if sc == 0x1C {
        DungeonKey::Start
    } else {
        match dir_of_key(sc) {
            Some(d) => DungeonKey::Walk(d),
            None => DungeonKey::Ignore,
        }
    }
}

/// What a key means (see `DungeonKey`).
pub fn dungeon_key(sc: u8) -> (res: DungeonKey)
    ensures
        res == dungeon_key_of(sc),
{
    if sc == 0x01 {
        DungeonKey::Leave
    } else if sc == 0x1C {
        DungeonKey::Start
    } else {
        match key_dir(sc) {
            Some(d) => DungeonKey::Walk(d),
            None => DungeonKey::Ignore,
        }
    }
}

/// The cell next to `(x, y)` in direction `d`.
pub open spec fn dest(x: int, y: int, d: Dir) -> (int, int) {
    match d {
        Dir::Up => (x, y - 1),
        Dir::Down => (x, y + 1),
        Dir::Left => (x - 1, y),
        Dir::Right => (x + 1, y),
    }
}

/// A `w`-by-two box at `(x, y)` holds byte `b`.
pub open spec fn box_has(map: Seq<u8>, x: int, y: int, w: int, b: u8) -> bool {
    exists|cx: int, cy: int| 0 <= cx < w && 0 <= cy < 2 && #[trigger] map[(y + cy) * WIN_W + x + cx] == b
}

/// The crab that Ferris, walking to `(nx, ny)`, attacks.
pub open spec fn crab_at(nx: int, ny: int) -> spec_fn(Enemy) -> bool {
    |e: Enemy| e.active && overlaps(nx, ny, e.x as int, e.y as int)
}

/// One step from `from` towards `to`.
pub open spec fn toward(v: int, from: int, to: int) -> int {
    if to > from { v + 1 } else if to < from { v - 1 } else { v }
}

/// Two crabs' three-by-two bodies overlap.
pub open spec fn crabs_overlap(x: int, y: int, ox: int, oy: int) -> bool {
    x < ox + 3 && x + 3 > ox && y < oy + 2 && y + 2 > oy
}

/// Another live crab than `i` is in the way at `(x, y)`.
pub open spec fn crab_in_way(es: Seq<Enemy>, i: int, x: int, y: int) -> bool {
    exists|j: int| 0 <= j < es.len() && j != i && (#[trigger] es[j]).active
        && crabs_overlap(x, y, es[j].x as int, es[j].y as int)
}

/// The crabs, Ferris's health and the seed during the crabs' turn.
pub struct CrabState {
    pub es: Seq<Enemy>,
    pub hp: int,
    pub seed: u32,
}

/// Crab `i`'s turn: next to Ferris it bites; otherwise, on an even random
/// number, it steps towards Ferris unless a wall or another crab is in the
/// way, and bites instead when the step would reach Ferris.
pub open spec fn crab_turn(st: CrabState, map: Seq<u8>, px: int, py: int, i: int) -> CrabState {
    let e = st.es[i];
    if !e.active {
        st
    } else if overlaps(px, py, e.x as int, e.y as int) {
        CrabState { hp: st.hp - 1, ..st }
    } else {
        let s1 = next_seed(st.seed);
        if s1 % 2 != 0 {
            CrabState { seed: s1, ..st }
        } else {
            let nex = toward(e.x as int, e.x + 1, px + 2);
            let ney = toward(e.y as int, e.y as int, py);
            let blocked = box_has(map, nex, ney, 3, WALL) || crab_in_way(st.es, i, nex, ney);
            let noverlap = overlaps(px, py, nex, ney);
            if !blocked && !noverlap {
                CrabState { es: st.es.update(i, Enemy { x: nex as usize, y: ney as usize, ..e }), seed: s1, ..st }
            } else if noverlap {
                CrabState { hp: st.hp - 1, seed: s1, ..st }
            } else {
                CrabState { seed: s1, ..st }
            }
        }
    }
}

/// A live crab whose three-by-two body overlaps Ferris's five-by-two body
/// bites in its turn: Ferris loses exactly one point of health, and the
/// crabs and the random seed stay as they were.
pub proof fn lemma_crab_bites(st: CrabState, map: Seq<u8>, px: int, py: int, i: int)
    requires
        0 <= i < st.es.len(),
        st.es[i].active,
        st.es[i].x < px + 5,
        st.es[i].x + 3 > px,
        st.es[i].y < py + 2,
        st.es[i].y + 2 > py,
    ensures
        crab_turn(st, map, px, py, i).hp == st.hp - 1,
        crab_turn(st, map, px, py, i).es == st.es,
        crab_turn(st, map, px, py, i).seed == st.seed,
{
}

/// In its turn a crab bites at most once: Ferris's health stays or drops by
/// exactly one; a dead crab does nothing at all; and a crab that moves does
/// not end on Ferris.
pub proof fn lemma_crab_turn_bounds(st: CrabState, map: Seq<u8>, px: int, py: int, i: int)
    requires
        0 <= i < st.es.len(),
    ensures
        crab_turn(st, map, px, py, i).hp == st.hp || crab_turn(st, map, px, py, i).hp == st.hp - 1,
        !st.es[i].active ==> crab_turn(st, map, px, py, i) == st,
        ({
            let e1 = crab_turn(st, map, px, py, i).es[i];
            (e1.x != st.es[i].x || e1.y != st.es[i].y) ==>
                !(e1.x < px + 5 && e1.x + 3 > px && e1.y < py + 2 && e1.y + 2 > py)
        }),
{
}

/// The first `n` crabs' turns.
pub open spec fn crab_turns(st: CrabState, map: Seq<u8>, px: int, py: int, n: int) -> CrabState
    decreases n,
{
    if n <= 0 {
        st
    } else {
        crab_turn(crab_turns(st, map, px, py, n - 1), map, px, py, n - 1)
    }
}

/// The crabs' turns move crabs and bite Ferris, but leave every crab's
/// health, and whether it is alive, as they were.
pub proof fn lemma_crab_turns_keep_health(st: CrabState, map: Seq<u8>, px: int, py: int, n: int)
    requires
        0 <= n <= st.es.len(),
    ensures
        crab_turns(st, map, px, py, n).es.len() == st.es.len(),
        forall|i: int| 0 <= i < st.es.len() ==> {
            &&& (#[trigger] crab_turns(st, map, px, py, n).es[i]).hp == st.es[i].hp
            &&& crab_turns(st, map, px, py, n).es[i].active == st.es[i].active
        },
    decreases n,
{
    if n > 0 {
        lemma_crab_turns_keep_health(st, map, px, py, n - 1);
        let before = crab_turns(st, map, px, py, n - 1);
        let after = crab_turn(before, map, px, py, n - 1);
        assert forall|i: int| 0 <= i < st.es.len() implies {
            &&& (#[trigger] after.es[i]).hp == before.es[i].hp
            &&& after.es[i].active == before.es[i].active
        } by {}
    }
}

/// Inside the border, a box that holds no wall is inside the walls.
proof fn lemma_box_inside(map: Seq<u8>, x: int, y: int, w: int)
    requires
        walls_ok(map),
        0 <= x,
        x + w <= WIN_W + 1,
        0 <= y <= WIN_H - 3,
        2 <= w,
        !box_has(map, x, y, w, WALL),
    ensures
        1 <= x,
        x + w <= WIN_W - 1,
        1 <= y <= WIN_H - 4,
{
    if x == 0 {
        assert(map[(y + 0) * WIN_W + x + 0] == WALL);
    }
    if x + w > WIN_W - 1 {
        assert(map[(y + 0) * WIN_W + WIN_W - 1] == WALL);
        assert(map[(y + 0) * WIN_W + x + (WIN_W - 1 - x)] == WALL);
    }
    if y == 0 {
        assert(map[(y + 0) * WIN_W + x + 0] == WALL);
    }
    if y == WIN_H - 3 {
        assert(map[(WIN_H - 2) * WIN_W + x] == WALL);
        assert(map[(y + 1) * WIN_W + x + 0] == WALL);
    }
}

impl Dungeon {
    /// Whether the `w`-by-two box at `(x, y)` holds byte `b`.
    fn box_holds(&self, x: usize, y: usize, w: usize, b: u8) -> (res: bool)
        requires
            (y + 1) * WIN_W + x + w <= MAP_CELLS,
        ensures
            res == box_has(self.map@, x as int, y as int, w as int, b),
    {
        let mut cy: usize = 0;
        while cy < 2
            invariant
                cy <= 2,
                (y + 1) * WIN_W + x + w <= MAP_CELLS,
                forall|cx2: int, cy2: int| 0 <= cx2 < w && 0 <= cy2 < cy ==>
                    #[trigger] self.map@[(y + cy2) * WIN_W + x + cx2] != b,
            decreases 2 - cy,
        {
            let mut cx: usize = 0;
            while cx < w
                invariant
                    cx <= w,
                    cy < 2,
                    (y + 1) * WIN_W + x + w <= MAP_CELLS,
                    forall|cx2: int, cy2: int| 0 <= cx2 < w && 0 <= cy2 < cy ==>
                        #[trigger] self.map@[(y + cy2) * WIN_W + x + cx2] != b,
                    forall|cx2: int| 0 <= cx2 < cx ==> #[trigger] self.map@[(y + cy) * WIN_W + x + cx2] != b,
                decreases w - cx,
            {
                if self.map[(y + cy) * WIN_W + x + cx] == b {
                    assert(self.map@[(y + cy) * WIN_W + x + cx] == b);
                    return true;
                }
                cx = cx + 1;
            }
            cy = cy + 1;
        }
        false
    }

    /// The first live crab that Ferris attacks when walking to `(nx, ny)`,
    /// or `MAX_ENEMIES`.
    fn find_hit(&self, nx: usize, ny: usize) -> (res: usize)
        requires
            self.wf(),
            nx <= WIN_W,
            ny <= WIN_H,
        ensures
            res == first_index(self.enemies@, crab_at(nx as int, ny as int)),
    {
        proof {
            lemma_first_index(self.enemies@, crab_at(nx as int, ny as int));
        }
        let mut i: usize = 0;
        while i < MAX_ENEMIES
            invariant
                i <= MAX_ENEMIES,
                self.wf(),
                forall|j: int| 0 <= j < i ==> !(crab_at(nx as int, ny as int))(#[trigger] self.enemies@[j]),
            decreases MAX_ENEMIES - i,
        {
            let e = self.enemies[i];
            if e.active && nx < e.x + 3 && nx + 5 > e.x && ny < e.y + 2 && ny + 2 > e.y {
                proof {
                    lemma_first_index_is(self.enemies@, crab_at(nx as int, ny as int), i as int);
                }
                return i;
            }
            i = i + 1;
        }
        MAX_ENEMIES
    }

    /// Whether another live crab than `i` is in the way at `(x, y)`.
    fn crab_blocks(&self, i: usize, x: usize, y: usize) -> (res: bool)
        requires
            self.wf(),
            x <= WIN_W,
            y <= WIN_H,
        ensures
            res == crab_in_way(self.enemies@, i as int, x as int, y as int),
    {
        let mut j: usize = 0;
        while j < MAX_ENEMIES
            invariant
                j <= MAX_ENEMIES,
                self.wf(),
                forall|k: int| 0 <= k < j && k != i ==> !((#[trigger] self.enemies@[k]).active
                    && crabs_overlap(x as int, y as int, self.enemies@[k].x as int, self.enemies@[k].y as int)),
            decreases MAX_ENEMIES - j,
        {
            let e = self.enemies[j];
            if i != j && e.active && x < e.x + 3 && x + 3 > e.x && y < e.y + 2 && y + 2 > e.y {
                assert(self.enemies@[j as int].active);
                return true;
            }
            j = j + 1;
        }
        false
    }
}

impl Dungeon {
    pub open spec fn crab_state(&self) -> CrabState {
        CrabState { es: self.enemies@, hp: self.hp as int, seed: self.seed }
    }

    /// Crab `i`'s turn (see `crab_turn`).
    fn crab_move(&mut self, i: usize)
        requires
            old(self).wf(),
            old(self).pending != Gen::Layout,
            i < MAX_ENEMIES,
            old(self).hp >= 1 - i,
        ensures
            final(self).wf(),
            final(self).hp >= -(i as int),
            final(self).crab_state() == crab_turn(old(self).crab_state(), old(self).map@,
                old(self).px as int, old(self).py as int, i as int),
            final(self).map@ == old(self).map@,
            final(self).px == old(self).px && final(self).py == old(self).py,
            final(self).depth == old(self).depth,
            final(self).pending == old(self).pending,
    {
        let e = self.enemies[i];
        if !e.active {
            return;
        }
        let px = self.px;
        let py = self.py;
        let ex = e.x;
        let ey = e.y;
        let overlap = px < ex + 3 && px + 5 > ex && py < ey + 2 && py + 2 > ey;
        if overlap {
            self.hp = self.hp - 1;
            return;
        }
        let r = self.next_rand();
        if r % 2 != 0 {
            return;
        }
        let pcx = px + 2;
        let ecx = ex + 1;
        let nex = if pcx > ecx { ex + 1 } else if pcx < ecx { ex - 1 } else { ex };
        let ney = if py > ey { ey + 1 } else if py < ey { ey - 1 } else { ey };
        let walled = self.box_holds(nex, ney, 3, WALL);
        let crowded = self.crab_blocks(i, nex, ney);
        let blocked = walled || crowded;
        let noverlap = px < nex + 3 && px + 5 > nex && py < ney + 2 && py + 2 > ney;
        if !blocked && !noverlap {
            proof {
                lemma_box_inside(self.map@, nex as int, ney as int, 3);
            }
            self.enemies[i] = Enemy { x: nex, y: ney, ..e };
        } else if noverlap {
            self.hp = self.hp - 1;
        }
    }

    /// Ferris's turn, walking in direction `d`: a crab in the way is
    /// attacked (five damage; it dies at zero) and Ferris stays; otherwise
    /// Ferris walks unless a wall is in the way. Standing on the stairs
    /// leads to the next floor, healing five up to full health, without the
    /// crabs' turn; otherwise every crab has its turn (see `crab_turns`).
    /// True when a crab was attacked.
    pub fn turn(&mut self, d: Dir) -> (hit: bool)
        requires
            old(self).wf(),
            old(self).pending == Gen::Ready,
            old(self).hp > 0,
            old(self).depth < 0x3fff_ffff,
        ensures
            final(self).wf(),
            ({
                let g = *old(self);
                let (nx, ny) = dest(g.px as int, g.py as int, d);
                let h = first_index(g.enemies@, crab_at(nx, ny));
                let es1 = if h < MAX_ENEMIES {
                    g.enemies@.update(h, Enemy { hp: (g.enemies@[h].hp - 5) as i32,
                        active: g.enemies@[h].hp - 5 > 0, ..g.enemies@[h] })
                } else {
                    g.enemies@
                };
                let moved = h >= MAX_ENEMIES && !box_has(g.map@, nx, ny, 5, WALL);
                let px1 = if moved { nx } else { g.px as int };
                let py1 = if moved { ny } else { g.py as int };
                &&& hit == (h < MAX_ENEMIES)
                &&& final(self).px == px1 && final(self).py == py1
                &&& final(self).map@ == g.map@
                &&& if box_has(g.map@, px1, py1, 5, STAIRS) {
                    &&& final(self).depth == g.depth + 1
                    &&& final(self).hp == (if g.hp < MAX_HP { if g.hp + 5 > MAX_HP { MAX_HP as int } else { g.hp + 5 } } else { g.hp as int })
                    &&& final(self).pending == Gen::Layout
                    &&& final(self).enemies@ == es1
                    &&& final(self).seed == g.seed
                } else {
                    let st = crab_turns(CrabState { es: es1, hp: g.hp as int, seed: g.seed }, g.map@, px1, py1, MAX_ENEMIES as int);
                    &&& final(self).crab_state() == st
                    &&& forall|i: int| 0 <= i < MAX_ENEMIES ==> {
                        &&& (#[trigger] final(self).enemies@[i]).hp == es1[i].hp
                        &&& final(self).enemies@[i].active == es1[i].active
                    }
                    &&& final(self).depth == g.depth
                    &&& final(self).pending == Gen::Ready
                }
            }),
    {
        let (nx, ny) = match d {
            Dir::Up => (self.px, self.py - 1),
            Dir::Down => (self.px, self.py + 1),
            Dir::Left => (self.px - 1, self.py),
            Dir::Right => (self.px + 1, self.py),
        };
        let h = self.find_hit(nx, ny);
        proof {
            lemma_first_index(self.enemies@, crab_at(nx as int, ny as int));
        }
        let hit = h < MAX_ENEMIES;
        if hit {
            let mut e = self.enemies[h];
            e.hp = e.hp - 5;
            if e.hp <= 0 {
                e.active = false;
            }
            self.enemies[h] = e;
        } else if !self.box_holds(nx, ny, 5, WALL) {
            proof {
                lemma_box_inside(self.map@, nx as int, ny as int, 5);
            }
            self.px = nx;
            self.py = ny;
        }
        if self.box_holds(self.px, self.py, 5, STAIRS) {
            self.depth = self.depth + 1;
            if self.hp < MAX_HP {
                self.hp = self.hp + 5;
                if self.hp > MAX_HP {
                    self.hp = MAX_HP;
                }
            }
            self.pending = Gen::Layout;
            return hit;
        }
        let ghost st0 = self.crab_state();
        let ghost px1 = self.px as int;
        let ghost py1 = self.py as int;
        let ghost m = self.map@;
        let mut i: usize = 0;
        while i < MAX_ENEMIES
            invariant
                i <= MAX_ENEMIES,
                self.wf(),
                self.pending == Gen::Ready,
                self.hp >= 1 - i,
                self.map@ == m,
                self.px == px1 && self.py == py1,
                self.depth == old(self).depth,
                self.crab_state() == crab_turns(st0, m, px1, py1, i as int),
            decreases MAX_ENEMIES - i,
        {
            self.crab_move(i);
            i = i + 1;
        }
        proof {
            lemma_crab_turns_keep_health(st0, m, px1, py1, MAX_ENEMIES as int);
        }
        hit
    }
}

/// The title screen: the name, Ferris and how to start or leave.
pub open spec fn title_puts() -> Seq<Put> {
    text_puts(16, 4, t_dungeon_title(), 0x0E)
    + text_puts(21, 6, t_crab_top(), 0x0C)
    + text_puts(21, 7, t_crab_bottom(), 0x0C)
    + text_puts(12, 9, t_delve(), 0x0F)
    + text_puts(14, 11, t_flee(), 0x08)
}

/// How a map byte is drawn: walls as grey blocks, stairs in yellow, the
/// floor as grey dots.
pub open spec fn tile(b: u8) -> (u8, u8) {
    if b == WALL { (0xDB, 0x08) } else if b == STAIRS { (0xF0, 0x0E) } else { (0xFA, 0x07) }
}

/// The map drawn over the text rows above the last.
pub open spec fn map_puts(map: Seq<u8>) -> Seq<Put> {
    Seq::new(((WIN_H - 1) * WIN_W) as nat, |k: int| Put {
        x: (k % (WIN_W as int)) as usize,
        y: (k / (WIN_W as int)) as usize,
        c: tile(map[k]).0,
        color: tile(map[k]).1,
    })
}

/// A live crab: claws and eye in green and red.
pub open spec fn crab_puts(e: Enemy) -> Seq<Put> {
    let x = e.x;
    let y = e.y;
    seq![Put { x: x, y: y, c: 0x5c, color: 0x0A },
         Put { x: (x + 1) as usize, y: y, c: 0x6d, color: 0x0A },
         Put { x: (x + 2) as usize, y: y, c: 0x2f, color: 0x0A },
         Put { x: x, y: (y + 1) as usize, c: 0x28, color: 0x0A },
         Put { x: (x + 1) as usize, y: (y + 1) as usize, c: 0x4f, color: 0x0C },
         Put { x: (x + 2) as usize, y: (y + 1) as usize, c: 0x29, color: 0x0A }]
}

/// The live crabs among the first `n`.
pub open spec fn crabs_puts(es: Seq<Enemy>, n: int) -> Seq<Put>
    decreases n,
{
    if n <= 0 {
        Seq::empty()
    } else if es[n - 1].active {
        crabs_puts(es, n - 1) + crab_puts(es[n - 1])
    } else {
        crabs_puts(es, n - 1)
    }
}

/// Ferris's health as shown: zero once it is gone.
pub open spec fn hp_text(hp: int) -> Seq<u8> {
    if hp <= 0 { seq![0x30u8] } else { dec_digits(hp as nat) }
}

/// The status row below the map: health, floor and, once Ferris has no
/// health left, the end of the game.
pub open spec fn hud_puts(hp: int, depth: int) -> Seq<Put> {
    let n1 = hp_text(hp).len() as int;
    let n2 = dec_digits(depth as nat).len() as int;
    let y = WIN_H - 1int;
    text_puts(0, y, t_hp_label(), 0x0C)
    + text_puts(3, y, hp_text(hp), 0x0F)
    + text_puts(5 + n1, y, t_floor_label(), 0x0B)
    + text_puts(9 + n1, y, dec_digits(depth as nat), 0x0F)
    + if hp <= 0 { text_puts(9 + n1 + n2, y, t_died(), 0x04) } else { Seq::empty() }
}

impl Dungeon {
    /// The cells a turn draws: the map, the crabs, Ferris and the status
    /// row.
    pub open spec fn puts(&self) -> Seq<Put> {
        map_puts(self.map@) + crabs_puts(self.enemies@, MAX_ENEMIES as int)
        + text_puts(self.px as int, self.py as int, t_crab_top(), 0x0C)
        + text_puts(self.px as int, self.py + 1, t_crab_bottom(), 0x0C)
        + hud_puts(self.hp as int, self.depth as int)
    }

    /// Ferris has no health left: the game is over.
    pub fn is_over(&self) -> (res: bool)
        ensures
            res == (self.hp <= 0),
    {
        self.hp <= 0
    }

    /// Draws the title screen on a cleared window.
    pub fn render_title(win: &mut Window)
        requires
            old(win).wf(),
        ensures
            final(win).wf(),
            final(win).same_frame(*old(win)),
            final(win).term() == (Term { cx: 0, cy: 0, cells: put_all(blank_cells(), title_puts()) }),
    {
        win.win_clear();
        let mut ps: Vec<Put> = Vec::new();
        push_text(&mut ps, WIN_W / 2 - 7, WIN_H / 2 - 3, &dungeon_title(), 0x0E);
        push_text(&mut ps, WIN_W / 2 - 2, WIN_H / 2 - 1, &crab_top(), 0x0C);
        push_text(&mut ps, WIN_W / 2 - 2, WIN_H / 2, &crab_bottom(), 0x0C);
        push_text(&mut ps, WIN_W / 2 - 11, WIN_H / 2 + 2, &delve(), 0x0F);
        push_text(&mut ps, WIN_W / 2 - 9, WIN_H / 2 + 4, &flee(), 0x08);
        assert(ps@ =~= title_puts());
        win.draw_puts(&ps);
    }

    /// Draws a turn on a cleared window (see `puts`).
    pub fn render(&self, win: &mut Window)
        requires
            self.wf(),
            old(win).wf(),
        ensures
            final(win).wf(),
            final(win).same_frame(*old(win)),
            final(win).term() == (Term { cx: 0, cy: 0, cells: put_all(blank_cells(), self.puts()) }),
    {
        win.win_clear();
        let mut ps: Vec<Put> = Vec::new();
        let mut k: usize = 0;
        while k < (WIN_H - 1) * WIN_W
            invariant
                k <= (WIN_H - 1) * WIN_W,
                ps@ == map_puts(self.map@).take(k as int),
            decreases (WIN_H - 1) * WIN_W - k,
        {
            let b = self.map[k];
            let (c, color): (u8, u8) = if b == WALL { (0xDB, 0x08) } else if b == STAIRS { (0xF0, 0x0E) } else { (0xFA, 0x07) };
            ps.push(Put { x: k % WIN_W, y: k / WIN_W, c: c, color: color });
            assert(ps@ =~= map_puts(self.map@).take(k + 1));
            k = k + 1;
        }
        assert(ps@ =~= map_puts(self.map@));
        let ghost base = ps@;
        let mut i: usize = 0;
        while i < MAX_ENEMIES
            invariant
                i <= MAX_ENEMIES,
                self.wf(),
                ps@ == base + crabs_puts(self.enemies@, i as int),
            decreases MAX_ENEMIES - i,
        {
            let e = self.enemies[i];
            if e.active {
                ps.push(Put { x: e.x, y: e.y, c: 0x5c, color: 0x0A });
                ps.push(Put { x: e.x + 1, y: e.y, c: 0x6d, color: 0x0A });
                ps.push(Put { x: e.x + 2, y: e.y, c: 0x2f, color: 0x0A });
                ps.push(Put { x: e.x, y: e.y + 1, c: 0x28, color: 0x0A });
                ps.push(Put { x: e.x + 1, y: e.y + 1, c: 0x4f, color: 0x0C });
                ps.push(Put { x: e.x + 2, y: e.y + 1, c: 0x29, color: 0x0A });
                assert(ps@ =~= base + crabs_puts(self.enemies@, i + 1));
            } else {
                assert(ps@ =~= base + crabs_puts(self.enemies@, i + 1));
            }
            i = i + 1;
        }
        push_text(&mut ps, self.px, self.py, &crab_top(), 0x0C);
        push_text(&mut ps, self.px, self.py + 1, &crab_bottom(), 0x0C);
        let ghost before_hud = ps@;
        let y = WIN_H - 1;
        push_text(&mut ps, 0, y, &hp_label(), 0x0C);
        let hp_digits: Vec<u8> = if self.hp <= 0 {
            let mut v = Vec::new();
            v.push(0x30u8);
            assert(v@ =~= seq![0x30u8]);
            v
        } else {
            dec_text(self.hp as u32)
        };
        assert(hp_digits@ == hp_text(self.hp as int));
        assert(hp_digits.len() <= 10);
        proof {
            crate::script::lemma_dec_round_trip(self.depth as nat);
        }
        push_text(&mut ps, 3, y, hp_digits.as_slice(), 0x0F);
        let n1 = hp_digits.len();
        push_text(&mut ps, 5 + n1, y, &floor_label(), 0x0B);
        let depth_digits = dec_text(self.depth as u32);
        push_text(&mut ps, 9 + n1, y, depth_digits.as_slice(), 0x0F);
        let n2 = depth_digits.len();
        if self.hp <= 0 {
            push_text(&mut ps, 9 + n1 + n2, y, &died(), 0x04);
        }
        assert(ps@ =~= self.puts());
        win.draw_puts(&ps);
    }

    /// Ferris attacking, drawn over the window as it is.
    pub fn render_hurt(&self, win: &mut Window)
        requires
            old(win).wf(),
            self.wf(),
        ensures
            final(win).wf(),
            final(win).same_frame(*old(win)),
            final(win).cx == old(win).cx && final(win).cy == old(win).cy,
            final(win).screen@ == put_all(old(win).screen@,
                text_puts(self.px as int, self.py as int, t_hurt_top(), 0x0C)
                + text_puts(self.px as int, self.py + 1, t_hurt_bottom(), 0x0C)),
    {
        let mut ps: Vec<Put> = Vec::new();
        push_text(&mut ps, self.px, self.py, &hurt_top(), 0x0C);
        push_text(&mut ps, self.px, self.py + 1, &hurt_bottom(), 0x0C);
        assert(ps@ =~= text_puts(self.px as int, self.py as int, t_hurt_top(), 0x0C)
            + text_puts(self.px as int, self.py + 1, t_hurt_bottom(), 0x0C));
        win.draw_puts(&ps);
    }
}

} // verus!
