use lib::dungeon::{dungeon_key, key_dir, Dir, Dungeon, DungeonKey, Gen, MAX_ENEMIES, MAX_HP, WALL as DWALL};
use lib::jump::{Jump, JumpKey, FERRIS_X, GROUND};
use lib::maker::{Maker, MakerKey, OPEN, WALL};
use lib::screen::Window;

fn window() -> Window {
    let mut w = Window::new();
    w.active = true;
    w.win_clear();
    w
}

fn row(w: &Window, y: usize) -> String {
    let mut s = String::new();
    for x in 0..46 {
        s.push((w.screen[y * 46 + x] & 0xFF) as u8 as char);
    }
    s.trim_end().to_string()
}

#[test]
fn dino_starts_on_the_ground() {
    let j = Jump::new();
    assert_eq!((j.ferris_y, j.velocity, j.is_jumping), (GROUND, 0, false));
    assert_eq!((j.obs_x, j.cloud_x, j.score), (43, 36, 0));
}

#[test]
fn dino_crashes_when_it_never_jumps() {
    let mut j = Jump::new();
    let mut frames = 0;
    loop {
        j.begin_frame();
        let a = j.advance();
        frames += 1;
        if a.crashed {
            break;
        }
        assert!(frames < 1000);
    }
    assert_eq!(j.obs_x, FERRIS_X + 2);
    assert_eq!(j.score, 0);
    // the obstacle moves every second frame, from 43 to 7
    assert_eq!(frames, 72);
}

#[test]
fn dino_jump_arc_stays_in_the_window() {
    let mut j = Jump::new();
    j.begin_frame();
    assert_eq!(j.key(0x39), JumpKey::Continue);
    assert!(j.is_jumping);
    assert_eq!((j.velocity, j.tick), (-3, 0));
    let mut heights = Vec::new();
    for f in 0..16 {
        if f > 0 {
            j.begin_frame();
        }
        j.advance();
        assert!(j.ferris_y >= GROUND - 6 && j.ferris_y <= GROUND);
        heights.push(GROUND - j.ferris_y);
    }
    assert_eq!(&heights[..], &[3, 3, 5, 5, 6, 6, 6, 6, 5, 5, 3, 3, 0, 0, 0, 0]);
    assert!(!j.is_jumping);
    // space in the air does nothing, ESC quits
    let mut k = Jump::new();
    k.key(0x39);
    let before = (k.velocity, k.tick);
    assert_eq!(k.key(0x39), JumpKey::Continue);
    assert_eq!((k.velocity, k.tick), before);
    assert_eq!(k.key(0x01), JumpKey::Quit);
}

#[test]
fn dino_scores_when_the_obstacle_wraps() {
    let mut j = Jump::new();
    j.obs_x = 0;
    j.tick = 2;
    let a = j.advance();
    assert!(a.beep && !a.crashed);
    assert_eq!((j.obs_x, j.score, j.sound_timer), (43, 1, 4));
    let mut stops = 0;
    for _ in 0..4 {
        if j.begin_frame() {
            stops += 1;
        }
    }
    assert_eq!(stops, 1);
    assert_eq!(j.sound_timer, 0);
}

#[test]
fn dino_draws_score_and_ground() {
    let mut j = Jump::new();
    j.score = 12;
    let mut w = window();
    j.render(&mut w);
    assert_eq!(row(&w, 0), "SCORE: 12");
    assert_eq!(w.screen[12 * 46] & 0xFF, 0xCD);
    assert_eq!(w.screen[11 * 46 + 43] & 0xFF, 0xDB);
    assert_eq!(w.screen[3 * 46 + 36] & 0xFF, 0xDF);
    assert_eq!(row(&w, 10), "     o_o");
    assert_eq!(w.screen[11 * 46 + 5] & 0xFF, b'>' as u16);
    assert_eq!(w.screen[11 * 46 + 7] & 0xFF, b'<' as u16);
    assert_eq!(w.screen[11 * 46 + 5] >> 8, 0x0C);
}

#[test]
fn maker_level_is_walled() {
    let m = Maker::new();
    assert!(m.is_editing);
    assert_eq!((m.ferris_x, m.ferris_y), (5, 5));
    for x in 0..46 {
        assert_eq!(m.map[2 * 46 + x], WALL);
        assert_eq!(m.map[12 * 46 + x], WALL);
    }
    for y in 2..13 {
        assert_eq!(m.map[y * 46], WALL);
        assert_eq!(m.map[y * 46 + 45], WALL);
    }
    assert_eq!(m.map[5 * 46 + 10], OPEN);
    assert_eq!(m.map[13 * 46], OPEN);
    assert_eq!(m.map[0], OPEN);
}

#[test]
fn maker_builds_and_clears_walls() {
    let mut m = Maker::new();
    m.edit(5, 3, 15, 8, true, false);
    assert_eq!(m.map[5 * 46 + 10], WALL);
    m.edit(5, 3, 15, 8, false, true);
    assert_eq!(m.map[5 * 46 + 10], OPEN);
    m.edit(5, 3, 15, 8, true, false);
    // on the border or outside the window nothing changes
    let before = m.map;
    m.edit(5, 3, 5, 8, true, false);
    m.edit(5, 3, 15, 5, true, false);
    m.edit(5, 3, 70, 8, true, false);
    assert!(m.map == before);
}

#[test]
fn maker_walls_stop_ferris() {
    let mut m = Maker::new();
    m.edit(5, 3, 15, 8, true, false);
    assert_eq!(m.key(0x19), MakerKey::Continue);
    assert!(!m.is_editing);
    assert_eq!((m.ferris_x, m.ferris_y), (5, 5));
    m.key(0x20);
    assert_eq!((m.ferris_x, m.ferris_y), (5, 5));
    m.key(0x1E);
    assert_eq!((m.ferris_x, m.ferris_y), (4, 5));
    m.key(0x11);
    assert_eq!((m.ferris_x, m.ferris_y), (4, 4));
    m.key(0x11);
    assert_eq!((m.ferris_x, m.ferris_y), (4, 3));
    m.key(0x11);
    assert_eq!((m.ferris_x, m.ferris_y), (4, 3));
    m.key(0x12);
    assert!(m.is_editing);
    m.key(0x1F);
    assert_eq!((m.ferris_x, m.ferris_y), (4, 3));
    assert_eq!(m.key(0x01), MakerKey::Quit);
}

fn ready_dungeon() -> Dungeon {
    let mut d = Dungeon::new();
    let mut steps = 0;
    while !d.gen_step() {
        steps += 1;
        assert!(steps < 100000);
    }
    d
}

#[test]
fn dungeon_level_generation() {
    let d = ready_dungeon();
    assert_eq!(d.pending, Gen::Ready);
    assert_eq!((d.px, d.py, d.hp, d.depth), (2, 2, MAX_HP, 1));
    for x in 0..46 {
        assert_eq!(d.map[x], DWALL);
        assert_eq!(d.map[12 * 46 + x], DWALL);
    }
    for y in 0..13 {
        assert_eq!(d.map[y * 46], DWALL);
        assert_eq!(d.map[y * 46 + 45], DWALL);
    }
    let crabs: Vec<_> = d.enemies.iter().filter(|e| e.active).collect();
    assert_eq!(crabs.len(), 3);
    for e in crabs {
        assert_eq!(e.hp, 2);
        assert!(e.x >= 1 && e.x + 3 <= 45 && e.y >= 1 && e.y + 2 <= 12);
    }
    assert_eq!(d.enemies.len(), MAX_ENEMIES);
    assert!(d.map.iter().take(13 * 46).any(|&c| c == 0x3e));
}

#[test]
fn dungeon_turns_keep_ferris_inside() {
    let mut d = ready_dungeon();
    let keys = [0x20u8, 0x20, 0x1F, 0x1F, 0x20, 0x11, 0x1E, 0x20, 0x20, 0x1F, 0x20, 0x20];
    for _round in 0..10 {
        for &k in keys.iter() {
            if d.hp <= 0 {
                break;
            }
            if d.pending != Gen::Ready {
                while !d.gen_step() {}
            }
            let dir = key_dir(k).unwrap();
            d.turn(dir);
            assert!(d.hp <= MAX_HP);
            assert!(d.px >= 1 && d.px + 5 <= 45 && d.py >= 1 && d.py + 2 <= 12);
            for cy in 0..2 {
                for cx in 0..5 {
                    assert_ne!(d.map[(d.py + cy) * 46 + d.px + cx], DWALL);
                }
            }
            assert!(d.depth >= 1);
        }
    }
    assert_eq!(key_dir(0x39), None);
    assert_eq!(key_dir(0x11), Some(Dir::Up));
}

#[test]
fn dungeon_attack_hurts_a_crab() {
    let mut d = ready_dungeon();
    for e in d.enemies.iter_mut() {
        e.active = false;
    }
    d.enemies[0].active = true;
    d.enemies[0].x = 7;
    d.enemies[0].y = 2;
    d.enemies[0].hp = 7;
    for c in 3..10 {
        d.map[2 * 46 + c] = b' ';
        d.map[3 * 46 + c] = b' ';
    }
    assert!(d.turn(Dir::Right));
    assert_eq!((d.px, d.py), (2, 2));
    assert_eq!(d.enemies[0].hp, 2);
    assert!(d.enemies[0].active);
    assert!(d.turn(Dir::Right));
    assert!(!d.enemies[0].active);
    assert!(!d.turn(Dir::Right));
    assert_eq!((d.px, d.py), (3, 2));
}

#[test]
fn dungeon_title_and_status_line() {
    let mut w = window();
    Dungeon::render_title(&mut w);
    assert_eq!(row(&w, 4).trim_start(), "FERRIS DUNGEON");
    let d = ready_dungeon();
    d.render(&mut w);
    // the status line goes to the last row, which a window does not draw
    assert_eq!(row(&w, 13), "");
    assert_eq!(w.screen[2 * 46 + 2] & 0xFF, b'(' as u16);
    assert_eq!(w.screen[0] & 0xFF, 0xDB);
}

#[test]
fn dungeon_keys() {
    assert_eq!(dungeon_key(0x01), DungeonKey::Leave);
    assert_eq!(dungeon_key(0x1C), DungeonKey::Start);
    assert_eq!(dungeon_key(0x20), DungeonKey::Walk(Dir::Right));
    assert_eq!(dungeon_key(0x1E), DungeonKey::Walk(Dir::Left));
    assert_eq!(dungeon_key(0x39), DungeonKey::Ignore);
}

#[test]
fn maker_border_stands_after_edits() {
    let mut m = Maker::new();
    for my in 3..17 {
        for mx in 5..51 {
            m.edit(5, 3, mx, my, true, false);
            m.edit(5, 3, mx, my, false, true);
        }
    }
    for x in 0..46 {
        assert_eq!(m.map[2 * 46 + x], WALL);
        assert_eq!(m.map[12 * 46 + x], WALL);
    }
    for y in 2..13 {
        assert_eq!(m.map[y * 46], WALL);
        assert_eq!(m.map[y * 46 + 45], WALL);
    }
}

#[test]
fn dungeon_is_over_without_health() {
    let mut d = ready_dungeon();
    assert!(!d.is_over());
    d.hp = 0;
    assert!(d.is_over());
    d.hp = -3;
    assert!(d.is_over());
}
