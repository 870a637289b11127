use lib::keys::scancode_to_char;
use lib::screen::Window;
use lib::shell::{parse_command, parse_dir, Cmd, Desktop, Launch};
use lib::vfs::File;

fn scancode_for(c: u8) -> (u8, bool) {
    for sc in 0u8..0x3A {
        if scancode_to_char(sc, false) == Some(c) {
            return (sc, false);
        }
    }
    for sc in 0u8..0x3A {
        if scancode_to_char(sc, true) == Some(c) {
            return (sc, true);
        }
    }
    panic!("no key types {}", c);
}

/// Types `s` into the focused window, without Enter.
fn type_text(d: &mut Desktop, s: &str) {
    for &c in s.as_bytes() {
        let (sc, shift) = scancode_for(c);
        if shift {
            assert_eq!(d.on_key(0x2A), None);
        }
        assert_eq!(d.on_key(sc), None);
        if shift {
            assert_eq!(d.on_key(0xAA), None);
        }
    }
}

/// Types `s` and presses Enter.
fn run(d: &mut Desktop, s: &str) -> Option<Launch> {
    type_text(d, s);
    d.on_key(0x1C)
}

fn row(w: &Window, y: usize) -> String {
    let mut s = String::new();
    for x in 0..44 {
        s.push((w.screen[y * 46 + x] & 0xFF) as u8 as char);
    }
    s.trim_end().to_string()
}

fn color_at(w: &Window, x: usize, y: usize) -> u8 {
    (w.screen[y * 46 + x] >> 8) as u8
}

fn file(name: &str, folder: u8, content: &str) -> File {
    let mut f = File { name: [0; 16], content: [0; 512], folder_id: folder, active: true };
    f.name[..name.len()].copy_from_slice(name.as_bytes());
    f.content[..content.len()].copy_from_slice(content.as_bytes());
    f
}

#[test]
fn boot_greets_in_the_main_window() {
    let d = Desktop::boot();
    assert!(d.windows[0].active);
    assert!(!d.windows[1].active && !d.windows[2].active);
    assert_eq!((d.windows[0].x, d.windows[0].y), (5, 3));
    assert_eq!((d.windows[1].x, d.windows[1].y), (15, 5));
    assert_eq!((d.windows[2].x, d.windows[2].y), (25, 7));
    assert_eq!(row(&d.windows[0], 0), "Welcome to ferrisOS.");
    assert_eq!(row(&d.windows[0], 1), "Type r.help for commands.");
    assert_eq!(d.windows[0].screen[2 * 46] & 0xFF, 0xEE);
    assert_eq!(color_at(&d.windows[0], 0, 0), 0x0A);
    assert_eq!((d.windows[0].cx, d.windows[0].cy), (2, 2));
    assert_eq!((d.mouse_x, d.mouse_y), (40, 12));
    assert_eq!(d.win_dir, [255, 255, 255]);
}

#[test]
fn typing_echoes_and_backspace_erases() {
    let mut d = Desktop::boot();
    type_text(&mut d, "ab");
    assert_eq!(d.windows[0].buf_len, 2);
    assert_eq!(&d.windows[0].buf[..2], b"ab");
    assert_eq!(row(&d.windows[0], 2), "\u{ee} ab");
    assert_eq!(d.on_key(0x0E), None);
    assert_eq!(d.windows[0].buf_len, 1);
    assert_eq!(row(&d.windows[0], 2), "\u{ee} a");
    // a release changes nothing
    assert_eq!(d.on_key(0x9E), None);
    assert_eq!(d.windows[0].buf_len, 1);
}

#[test]
fn shift_types_capitals() {
    let mut d = Desktop::boot();
    d.on_key(0x2A);
    assert!(d.shift);
    d.on_key(0x1E);
    d.on_key(0xAA);
    assert!(!d.shift);
    d.on_key(0x1E);
    assert_eq!(&d.windows[0].buf[..2], b"Aa");
}

#[test]
fn help_lists_the_commands() {
    let mut d = Desktop::boot();
    assert_eq!(run(&mut d, "r.help"), None);
    let w = &d.windows[0];
    // the help text scrolls the window: its last lines stay
    assert_eq!(row(w, 10), "- r.desk");
    assert_eq!(row(w, 11), "-\u{ee}");
    assert_eq!(w.buf_len, 0);
}

#[test]
fn neofetch_draws_the_crab() {
    let mut d = Desktop::boot();
    run(&mut d, "r.neofetch");
    let w = &d.windows[0];
    assert_eq!(row(w, 3), "       _~^~^~_");
    assert_eq!(color_at(w, 7, 3), 0x0C);
    assert_eq!(row(w, 7), "OS: ferrisOS PRIMITIVE 1");
    assert_eq!(color_at(w, 0, 7), 0x0B);
    assert_eq!(row(w, 8), "\u{ee}");
}

#[test]
fn unknown_command_is_refused() {
    let mut d = Desktop::boot();
    run(&mut d, "hello");
    assert_eq!(row(&d.windows[0], 3), "Unknown command.");
    assert_eq!(color_at(&d.windows[0], 0, 3), 0x0C);
    assert_eq!(row(&d.windows[0], 4), "\u{ee}");
}

#[test]
fn empty_line_just_prompts_again() {
    let mut d = Desktop::boot();
    assert_eq!(d.on_key(0x1C), None);
    assert_eq!(row(&d.windows[0], 3), "\u{ee}");
    assert_eq!(row(&d.windows[0], 4), "");
}

#[test]
fn wash_clears_the_window() {
    let mut d = Desktop::boot();
    run(&mut d, "r.wash");
    assert_eq!(row(&d.windows[0], 0), "\u{ee}");
    assert_eq!(row(&d.windows[0], 1), "");
}

#[test]
fn new_opens_windows_until_three() {
    let mut d = Desktop::boot();
    run(&mut d, "r.new");
    assert!(d.windows[1].active);
    assert_eq!(d.focused, 1);
    assert_eq!(row(&d.windows[1], 0), "Welcome to ferrisOS.");
    run(&mut d, "r.new");
    assert!(d.windows[2].active);
    assert_eq!(d.focused, 2);
    run(&mut d, "r.new");
    assert_eq!(d.focused, 2);
    assert_eq!(row(&d.windows[2], 3), "Max windows reached.");
}

#[test]
fn main_window_cannot_close() {
    let mut d = Desktop::boot();
    run(&mut d, "r.close");
    assert!(d.windows[0].active);
    assert_eq!(row(&d.windows[0], 3), "Cannot close the main window.");
    // r.close gets no prompt back
    assert_eq!(row(&d.windows[0], 4), "");
}

#[test]
fn close_shuts_a_second_window() {
    let mut d = Desktop::boot();
    run(&mut d, "r.new");
    assert_eq!(d.focused, 1);
    run(&mut d, "r.close");
    assert!(!d.windows[1].active);
    assert_eq!(d.focused, 0);
}

#[test]
fn programs_are_launched() {
    let mut d = Desktop::boot();
    assert_eq!(run(&mut d, "r.play.ferris_dino"), Some(Launch::Dino));
    d.finish_command(0, Launch::Dino);
    assert_eq!(run(&mut d, "r.play.ferris_maker"), Some(Launch::Maker));
    d.finish_command(0, Launch::Maker);
    assert_eq!(row(&d.windows[0], 0), "\u{ee} \u{ee}");
    assert_eq!(run(&mut d, "r.play.ferrisdungeon"), Some(Launch::Dungeon));
    d.finish_command(0, Launch::Dungeon);
    assert_eq!(run(&mut d, "r.chest"), Some(Launch::Chest));
    d.finish_command(0, Launch::Chest);
    assert_eq!(row(&d.windows[0], 0), "\u{ee}");
    assert_eq!(run(&mut d, "r.ide"), Some(Launch::Ide));
    d.finish_command(0, Launch::Ide);
    assert_eq!(run(&mut d, "r.claw"), Some(Launch::Claw));
    d.finish_command(0, Launch::Claw);
    assert_eq!(run(&mut d, "r.carapace"), Some(Launch::Carapace));
    d.finish_command(0, Launch::Carapace);
    assert_eq!(run(&mut d, "r.sd"), Some(Launch::Shutdown));
    assert_eq!(d.windows[0].buf_len, 4);
}

#[test]
fn misspelt_game_gets_no_prompt() {
    let mut d = Desktop::boot();
    run(&mut d, "r.play/ferris_dino");
    assert_eq!(row(&d.windows[0], 3), "Unknown command.");
    assert_eq!(row(&d.windows[0], 4), "");
}

#[test]
fn change_directory() {
    let mut d = Desktop::boot();
    run(&mut d, "r.ad carapace.3");
    assert_eq!(d.win_dir[0], 3);
    run(&mut d, "r.ad ..");
    assert_eq!(d.win_dir[0], 255);
    run(&mut d, "r.ad carapace");
    assert_eq!(d.win_dir[0], 0);
    run(&mut d, "r.ad carapace.9");
    assert_eq!(d.win_dir[0], 0);
    let mut found = false;
    for y in 0..12 {
        if row(&d.windows[0], y) == "Invalid folder." {
            found = true;
        }
    }
    assert!(found);
    run(&mut d, "r.ad somewhere");
    let mut found = false;
    for y in 0..12 {
        if row(&d.windows[0], y) == "Unknown directory." {
            found = true;
        }
    }
    assert!(found);
}

#[test]
fn parse_dir_cases() {
    assert_eq!(parse_dir(b"r.ad carapace.4"), Ok(4));
    assert_eq!(parse_dir(b"r.ad carapace.5"), Err(true));
    assert_eq!(parse_dir(b"r.ad carapace"), Ok(0));
    assert_eq!(parse_dir(b"r.ad .."), Ok(255));
    assert_eq!(parse_dir(b"r.ad x"), Err(false));
    assert_eq!(parse_dir(b"r.adxcarapace.1"), Ok(1));
}

#[test]
fn parse_command_cases() {
    assert!(parse_command(b"r.neofetch") == Cmd::Neofetch);
    assert!(parse_command(b"r.sf") == Cmd::ListFiles);
    assert!(parse_command(b"r.adx") == Cmd::ChangeDir);
    assert!(parse_command(b"r.ex a") == Cmd::Exec);
    assert!(parse_command(b"r.ex") == Cmd::Other);
    assert!(parse_command(b"") == Cmd::Other);
}

#[test]
fn list_files_of_a_folder() {
    let mut d = Desktop::boot();
    run(&mut d, "r.sf");
    assert_eq!(row(&d.windows[0], 3), "Not in a carapace folder.");
    run(&mut d, "r.ad carapace.1");
    run(&mut d, "r.sf");
    assert_eq!(row(&d.windows[0], 6), "Folder is empty.");
    d.vfs.files[2] = file("b.claw", 1, "x");
    d.vfs.files[5] = file("a.ferris", 1, "y");
    d.vfs.files[6] = file("c.chest", 2, "z");
    d.on_key(0x1C);
    run(&mut d, "r.sf");
    let w = &d.windows[0];
    assert_eq!(row(w, 9), "b.claw");
    assert_eq!(color_at(w, 0, 9), 0x0B);
    assert_eq!(row(w, 10), "a.ferris");
    assert_eq!(row(w, 11), "\u{ee}");
}

#[test]
fn exec_finds_a_script_in_the_folder() {
    let mut d = Desktop::boot();
    d.vfs.files[4] = file("hi.ferris", 2, "print ,,hi,,");
    run(&mut d, "r.ex hi.ferris");
    assert_eq!(row(&d.windows[0], 3), "Not in a carapace folder.");
    run(&mut d, "r.ad carapace.1");
    run(&mut d, "r.ex hi.ferris");
    assert_eq!(row(&d.windows[0], 6), "File not found.");
    run(&mut d, "r.ad carapace.2");
    assert_eq!(run(&mut d, "r.ex hi.ferris"), Some(Launch::Script(4)));
}

#[test]
fn clicking_focuses_and_title_bar_drags() {
    let mut d = Desktop::boot();
    run(&mut d, "r.new");
    assert_eq!(d.focused, 1);
    // window 0 spans x 5..51, y 3..17; window 1 spans x 15..61, y 5..19.
    // pointer from (40, 12) to (8, 4): inside window 0 only.
    d.on_mouse(-64, 16, false);
    assert_eq!((d.mouse_x, d.mouse_y), (8, 4));
    d.on_mouse(0, 0, true);
    assert_eq!(d.focused, 0);
    assert!(d.dragging.is_none());
    d.on_mouse(0, 0, false);
    // press on window 0's title bar at (8, 3) and drag by (+4, +2)
    d.on_mouse(0, 2, true);
    assert_eq!(d.dragging, Some((0, 3, 0)));
    d.on_mouse(8, -4, true);
    assert_eq!((d.mouse_x, d.mouse_y), (12, 5));
    assert_eq!((d.windows[0].x, d.windows[0].y), (9, 5));
    d.on_mouse(0, 0, false);
    assert!(d.dragging.is_none());
}

#[test]
fn dragging_keeps_the_window_on_screen() {
    let mut d = Desktop::boot();
    // to the title bar of window 0 at (10, 3)
    d.on_mouse(-60, 18, true);
    assert_eq!((d.mouse_x, d.mouse_y), (10, 3));
    assert_eq!(d.dragging, Some((0, 5, 0)));
    d.on_mouse(127, -127, true);
    d.on_mouse(127, -127, true);
    assert_eq!((d.mouse_x, d.mouse_y), (79, 24));
    assert_eq!((d.windows[0].x, d.windows[0].y), (34, 11));
}

#[test]
fn close_box_shuts_a_window() {
    let mut d = Desktop::boot();
    run(&mut d, "r.new");
    // window 1: x 15..61, title bar y 5; close box x 57..61
    d.on_mouse(38, 14, true);
    assert_eq!((d.mouse_x, d.mouse_y), (59, 5));
    assert!(!d.windows[1].active);
    assert_eq!(d.focused, 0);
}

#[test]
fn pointer_stays_on_screen() {
    let mut d = Desktop::boot();
    d.on_mouse(-127, 127, false);
    d.on_mouse(-127, 127, false);
    assert_eq!((d.mouse_x, d.mouse_y), (0, 0));
    d.on_mouse(-3, 3, false);
    assert_eq!((d.mouse_x, d.mouse_y), (0, 0));
    d.on_mouse(3, -3, false);
    assert_eq!((d.mouse_x, d.mouse_y), (1, 1));
}

#[test]
fn the_main_window_stays_open_under_any_input() {
    let mut d = Desktop::boot();
    let keys: [u8; 12] = [0x13, 0x34, 0x2E, 0x26, 0x18, 0x1F, 0x12, 0x1C, 0x1C, 0x0E, 0x2A, 0x39];
    for (n, &k) in keys.iter().enumerate() {
        d.on_key(k);
        d.on_mouse(if n % 2 == 0 { 90 } else { -90 }, (n as i32) * 7 - 30, n % 3 == 0);
        assert!(d.windows[0].active);
    }
    run(&mut d, "r.close");
    assert!(d.windows[0].active);
}
