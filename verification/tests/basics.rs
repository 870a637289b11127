use lib::keys::scancode_to_char;
use lib::screen::{make_cell, push_text, Put, Window};
use lib::vfs::{names_equal, File, Vfs};

fn window() -> Window {
    let mut w = Window::new();
    w.active = true;
    w.win_clear();
    w
}

fn row(w: &Window, y: usize) -> String {
    let mut s = String::new();
    for x in 0..46 {
        s.push((w.screen[y * 46 + x] & 0xFF) as u8 as char);
    }
    s.trim_end().to_string()
}

fn name16(s: &str) -> [u8; 16] {
    let mut n = [0u8; 16];
    n[..s.len()].copy_from_slice(s.as_bytes());
    n
}

#[test]
fn scancode_table() {
    assert_eq!(scancode_to_char(0x02, false), Some(b'1'));
    assert_eq!(scancode_to_char(0x02, true), Some(b'!'));
    assert_eq!(scancode_to_char(0x10, false), Some(b'q'));
    assert_eq!(scancode_to_char(0x10, true), Some(b'Q'));
    assert_eq!(scancode_to_char(0x0E, true), Some(0x08));
    assert_eq!(scancode_to_char(0x0F, false), Some(b'\t'));
    assert_eq!(scancode_to_char(0x1C, true), Some(b'\n'));
    assert_eq!(scancode_to_char(0x28, false), Some(b'\''));
    assert_eq!(scancode_to_char(0x28, true), Some(b'"'));
    assert_eq!(scancode_to_char(0x29, true), Some(b'~'));
    assert_eq!(scancode_to_char(0x2B, false), Some(b'\\'));
    assert_eq!(scancode_to_char(0x35, true), Some(b'?'));
    assert_eq!(scancode_to_char(0x39, false), Some(b' '));
    assert_eq!(scancode_to_char(0x01, false), None);
    assert_eq!(scancode_to_char(0x1D, false), None);
    assert_eq!(scancode_to_char(0x2A, false), None);
    assert_eq!(scancode_to_char(0x3A, false), None);
    assert_eq!(scancode_to_char(0x9E, false), None);
}

#[test]
fn cells_pack_byte_and_colour() {
    assert_eq!(make_cell(b'A', 0x0F), 0x0F41);
    assert_eq!(make_cell(0xFF, 0xFF), 0xFFFF);
}

#[test]
fn new_window_is_closed_and_blank() {
    let w = Window::new();
    assert!(!w.active);
    assert_eq!((w.w, w.h, w.cx, w.cy, w.buf_len), (46, 14, 0, 0, 0));
    assert!(w.screen.iter().all(|&c| c == 0));
}

#[test]
fn printing_wraps_two_cells_short_of_the_edge() {
    let mut w = window();
    let line = [b'x'; 45];
    w.win_print_str(&line, 0x0F);
    assert_eq!(row(&w, 0), "x".repeat(44));
    assert_eq!(row(&w, 1), "x");
    assert_eq!((w.cx, w.cy), (1, 1));
}

#[test]
fn printing_scrolls_at_the_last_text_row() {
    let mut w = window();
    for i in 0..12u8 {
        w.win_print_char(b'a' + i, 0x0F);
        w.win_print_char(b'\n', 0x0E);
    }
    // twelve lines: the first is gone, the cursor stays on row 11
    assert_eq!(row(&w, 0), "b");
    assert_eq!(row(&w, 10), "l");
    assert_eq!(row(&w, 11), "");
    assert_eq!((w.cx, w.cy), (0, 11));
    assert_eq!(w.screen[11 * 46] >> 8, 0x0E);
    // the row under the text area is kept as it was
    assert_eq!(w.screen[12 * 46], make_cell(b' ', 0x0F));
}

#[test]
fn backspace_blanks_and_stops_at_the_row_start() {
    let mut w = window();
    w.win_print_str(b"ab", 0x0F);
    w.win_print_char(0x08, 0x0C);
    assert_eq!(row(&w, 0), "a");
    assert_eq!(w.screen[1], make_cell(b' ', 0x0C));
    w.win_print_char(0x08, 0x0F);
    w.win_print_char(0x08, 0x0F);
    assert_eq!((w.cx, w.cy), (0, 0));
}

#[test]
fn draw_ignores_cells_outside_the_text_area() {
    let mut w = window();
    let before = w.screen;
    w.win_draw_char(46, 0, b'X', 0x0F);
    w.win_draw_char(0, 13, b'X', 0x0F);
    assert!(w.screen == before);
    w.win_draw_char(45, 12, b'X', 0x0C);
    assert_eq!(w.screen[12 * 46 + 45], make_cell(b'X', 0x0C));
    assert_eq!((w.cx, w.cy), (0, 0));
}

#[test]
fn draw_puts_draws_in_order() {
    let mut w = window();
    let mut ps: Vec<Put> = Vec::new();
    push_text(&mut ps, 3, 2, b"hey", 0x0A);
    ps.push(Put { x: 3, y: 2, c: b'H', color: 0x0B });
    w.draw_puts(&ps);
    assert_eq!(row(&w, 2), "   Hey");
    assert_eq!(w.screen[2 * 46 + 3], make_cell(b'H', 0x0B));
}

#[test]
fn clear_blanks_everything() {
    let mut w = window();
    w.win_print_str(b"abc\ndef", 0x0C);
    w.win_clear();
    assert!(w.screen.iter().all(|&c| c == make_cell(b' ', 0x0F)));
    assert_eq!((w.cx, w.cy), (0, 0));
}

#[test]
fn save_takes_the_first_free_slot() {
    let mut v = Vfs::new();
    v.files[0].active = true;
    v.files[0].name = name16("busy");
    v.files[1].folder_id = 3;
    let content = [7u8; 512];
    v.save_to_vfs(name16("new.claw"), &content);
    assert!(v.files[1].active);
    assert_eq!(v.files[1].name, name16("new.claw"));
    assert_eq!(v.files[1].folder_id, 3);
    assert!(v.files[1].content.iter().all(|&c| c == 7));
    assert!(!v.files[2].active);
}

#[test]
fn saving_a_name_again_rewrites_it() {
    let mut v = Vfs::new();
    v.save_to_vfs(name16("a"), &[1u8; 512]);
    v.save_to_vfs(name16("b"), &[2u8; 512]);
    v.save_to_vfs(name16("a"), &[3u8; 512]);
    assert_eq!(v.files[0].name, name16("a"));
    assert_eq!(v.files[0].content[0], 3);
    assert_eq!(v.files[1].content[0], 2);
    assert!(!v.files[2].active);
}

#[test]
fn save_with_no_room_changes_nothing() {
    let mut v = Vfs::new();
    for i in 0..10 {
        v.files[i].active = true;
        v.files[i].name = name16("f");
        v.files[i].name[1] = b'0' + i as u8;
    }
    let before = v.files;
    v.save_to_vfs(name16("g"), &[9u8; 512]);
    assert!(v.files == before);
}

#[test]
fn file_names_and_lookup() {
    let mut v = Vfs::new();
    v.files[2] = File { name: name16("abc"), content: [0; 512], folder_id: 1, active: true };
    v.files[5] = File { name: name16("abc"), content: [0; 512], folder_id: 1, active: true };
    assert_eq!(v.files[2].name_len(), 3);
    assert!(v.files[2].name_is(b"abc"));
    assert!(!v.files[2].name_is(b"ab"));
    assert_eq!(v.find_in_folder(1, b"abc"), Some(2));
    assert_eq!(v.find_in_folder(0, b"abc"), None);
    assert_eq!(v.find_in_folder(1, b"abd"), None);
    let full = File { name: [b'z'; 16], content: [0; 512], folder_id: 0, active: true };
    assert_eq!(full.name_len(), 16);
    assert!(names_equal(&name16("x"), &name16("x")));
    assert!(!names_equal(&name16("x"), &name16("y")));
}
