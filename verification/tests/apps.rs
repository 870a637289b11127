use lib::chest::{save_song_file, Chest, ChestKey, REST};
use lib::compositor::{compose_frame, Compositor};
use lib::editor::{Claw, ClawKey, Ide, IdeKey, NamePrompt, PromptStep, TextBuf, NAME_WAIT};
use lib::explorer::{text_file, Explorer, ExplorerKey};
use lib::hw::{
    controller_busy, keyboard_ready, millisecond_over, mouse_packet, mouse_ready, packet_start,
    pit_count, speaker_divisor, speaker_off, speaker_on, with_mouse_irq,
};
use lib::screen::{make_cell, Window};
use lib::script::{Status, Vars};
use lib::shell::Desktop;
use lib::startup::{logo_frame, startup_melody};
use lib::vfs::{File, Vfs};

fn window() -> Window {
    let mut w = Window::new();
    w.active = true;
    w.win_clear();
    w
}

fn row(w: &Window, y: usize) -> String {
    let mut s = String::new();
    for x in 0..46 {
        s.push((w.screen[y * 46 + x] & 0xFF) as u8 as char);
    }
    s.trim_end().to_string()
}

fn name16(s: &str) -> [u8; 16] {
    let mut n = [0u8; 16];
    n[..s.len()].copy_from_slice(s.as_bytes());
    n
}

fn file(name: &str, folder: u8, content: &str) -> File {
    let mut f = File { name: [0; 16], content: [0; 512], folder_id: folder, active: true };
    f.name[..name.len()].copy_from_slice(name.as_bytes());
    f.content[..content.len()].copy_from_slice(content.as_bytes());
    f
}

// ---------------------------------------------------------------- editors

#[test]
fn typing_and_backspace_in_a_buffer() {
    let mut t = TextBuf::new();
    t.type_key(0x23); // h
    t.type_key(0x17); // i
    t.type_key(0x1C); // Enter
    assert_eq!(t.len, 3);
    assert_eq!(&t.bytes[..3], b"hi\n");
    t.type_key(0x0E);
    assert_eq!(t.len, 2);
    // the dropped byte stays in the buffer
    assert_eq!(t.bytes[2], b'\n');
    t.type_key(0x97); // a release
    t.type_key(0x3B); // F1 types nothing
    assert_eq!(t.len, 2);
    assert_eq!(t.text(), b"hi".to_vec());
    let mut e = TextBuf::new();
    e.type_key(0x0E);
    assert_eq!(e.len, 0);
}

#[test]
fn a_full_buffer_takes_no_more() {
    let mut t = TextBuf::new();
    for _ in 0..600 {
        t.type_key(0x1E);
    }
    assert_eq!(t.len, 512);
    assert!(t.bytes.iter().all(|&c| c == b'a'));
}

#[test]
fn claw_draws_its_title_and_text() {
    let mut c = Claw::new();
    assert_eq!(c.key(0x14), ClawKey::Edit); // t
    assert_eq!(c.key(0x2A), ClawKey::Edit); // shift does not type
    assert_eq!(c.key(0x01), ClawKey::Quit);
    assert_eq!(c.key(0x44), ClawKey::SaveAs);
    let mut w = window();
    c.render(&mut w);
    assert_eq!(row(&w, 0), "CLAW EDITOR | [F10]Save [ESC]Quit");
    assert_eq!(w.screen[0] >> 8, 0x0E);
    assert_eq!(row(&w, 2), "t");
    assert_eq!(w.screen[2 * 46] >> 8, 0x0F);
}

#[test]
fn claw_saves_under_a_typed_name() {
    let mut c = Claw::new();
    c.key(0x14);
    let mut w = window();
    let mut v = Vfs::new();
    let mut p = c.begin_save(&mut w);
    assert_eq!((p.len, p.max, p.wait), (0, 11, NAME_WAIT));
    assert_eq!(row(&w, 1), "Save as:");
    assert_eq!(p.key(0x31, &mut w), PromptStep::Wait); // n
    assert_eq!(p.key(0x18, &mut w), PromptStep::Wait); // o
    assert_eq!(row(&w, 1), "Save as: no");
    assert_eq!(p.key(0x1C, &mut w), PromptStep::Finish);
    assert!(c.finish_save(&p, &mut v, &mut w));
    assert_eq!(v.files[0].name, name16("no.claw"));
    assert!(v.files[0].active);
    assert_eq!(v.files[0].content[0], b't');
    assert_eq!(row(&w, 2), "Saved!");
}

#[test]
fn the_prompt_keeps_eleven_letters_and_escape_forgets_them() {
    let mut w = window();
    let mut p = NamePrompt::new(11, &mut w);
    for _ in 0..14 {
        p.key(0x1E, &mut w);
    }
    assert_eq!(p.len, 11);
    assert_eq!(p.file_name(b".claw"), *b"aaaaaaaaaaa.claw");
    assert_eq!(p.key(0x01, &mut w), PromptStep::Finish);
    assert_eq!(p.len, 0);
    let c = Claw::new();
    let mut v = Vfs::new();
    let before = v.files;
    assert!(!c.finish_save(&p, &mut v, &mut w));
    assert!(v.files == before);
}

#[test]
fn the_prompt_gives_up_after_its_wait() {
    let mut w = window();
    let mut p = NamePrompt::new(9, &mut w);
    p.key(0x1E, &mut w);
    let mut ticks = 0;
    while !p.count_down() {
        ticks += 1;
    }
    assert_eq!(ticks, 4999);
    assert_eq!(p.len, 1);
    // a key starts the wait over
    p.wait = 10;
    p.key(0x30, &mut w);
    assert_eq!(p.wait, NAME_WAIT);
}

#[test]
fn ide_tabs_edit_separately() {
    let mut ide = Ide::new();
    ide.key(0x1E); // a in tab 1
    assert_eq!(ide.key(0x3C), IdeKey::Edit);
    assert_eq!(ide.current, 1);
    ide.key(0x30); // b in tab 2
    ide.key(0x3D);
    assert_eq!(ide.current, 2);
    ide.key(0x3B);
    assert_eq!(ide.current, 0);
    assert_eq!(ide.tabs[0].text(), b"a".to_vec());
    assert_eq!(ide.tabs[1].text(), b"b".to_vec());
    assert_eq!(ide.tabs[2].len, 0);
    assert_eq!(ide.key(0x3F), IdeKey::Run);
    assert_eq!(ide.key(0x44), IdeKey::SaveAs);
    assert_eq!(ide.key(0x01), IdeKey::Quit);
    let mut w = window();
    ide.render(&mut w);
    assert_eq!(row(&w, 0), "TABS: [F1-F3] | [F10]Save [F5]Run [ESC]Quit");
    assert_eq!(row(&w, 1), " Tab1 Tab2 Tab3");
    assert_eq!(w.screen[46 + 1] >> 8, 0x1F);
    assert_eq!(w.screen[46 + 6] >> 8, 0x07);
    assert_eq!(row(&w, 3), "a");
}

#[test]
fn ide_runs_the_current_tab() {
    let mut ide = Ide::new();
    // "print ,,ok,,"
    for &sc in &[0x19u8, 0x13, 0x17, 0x31, 0x14, 0x39, 0x33, 0x33, 0x18, 0x25, 0x33, 0x33] {
        ide.key(sc);
    }
    let mut s = ide.run();
    assert_eq!(s.folder, 0);
    let mut w = window();
    let mut vars = Vars::new();
    let files = [File { name: [0; 16], content: [0; 512], folder_id: 0, active: false }; 10];
    loop {
        match s.step(&mut vars, &mut w, &files) {
            Status::Running => {}
            st => {
                assert_eq!(st, Status::Done);
                break;
            }
        }
    }
    Ide::finish_run(&mut w);
    assert_eq!(row(&w, 0), "ok");
    assert_eq!(row(&w, 1), "");
    assert_eq!(row(&w, 2), "[Done]");
}

#[test]
fn ide_saves_a_ferris_file() {
    let mut ide = Ide::new();
    ide.key(0x3C);
    ide.key(0x1E);
    let mut w = window();
    let mut v = Vfs::new();
    let mut p = ide.begin_save(&mut w);
    assert_eq!(p.max, 9);
    p.key(0x1F, &mut w);
    p.key(0x1C, &mut w);
    assert!(ide.finish_save(&p, &mut v, &mut w));
    assert_eq!(v.files[0].name, name16("s.ferris"));
    assert_eq!(v.files[0].content[0], b'a');
}

// ---------------------------------------------------------------- chest

#[test]
fn chest_grid_toggles_notes() {
    let mut c = Chest::new();
    assert!(c.notes.iter().all(|&n| n == REST));
    // window at (5, 3): step 4 is column 10, note 2 is row 5
    c.click(15, 8, true, 5, 3);
    assert_eq!(c.notes[4], 2);
    // holding the button does not toggle again
    c.click(15, 8, true, 5, 3);
    assert_eq!(c.notes[4], 2);
    c.click(15, 8, false, 5, 3);
    c.click(15, 8, true, 5, 3);
    assert_eq!(c.notes[4], REST);
    c.click(15, 8, false, 5, 3);
    // outside the grid
    c.click(5, 8, true, 5, 3);
    assert!(c.notes.iter().all(|&n| n == REST));
    assert_eq!(c.step_freq(4), None);
    c.notes[0] = 0;
    c.notes[15] = 7;
    assert_eq!(c.step_freq(0), Some(523));
    assert_eq!(c.step_freq(15), Some(261));
}

#[test]
fn chest_draws_the_grid() {
    let mut c = Chest::new();
    c.notes[1] = 0;
    let mut w = window();
    c.render(&mut w);
    assert_eq!(row(&w, 0), "CHEST");
    assert_eq!(w.screen[3 * 46 + 4], make_cell(b'O', 0x0A));
    assert_eq!(w.screen[3 * 46 + 2], make_cell(b'.', 0x08));
    // the key help, nine lines down, is printed over the grid's last row
    assert_eq!(row(&w, 10), "[P] Play  [S] Save  [ESC] Exit. .");
    assert_eq!(row(&w, 9), "  . . . . . . . . . . . . . . . .");
    let mut w2 = window();
    Chest::draw_marker(3, true, &mut w2);
    assert_eq!(w2.screen[2 * 46 + 8], make_cell(0x19, 0x0E));
}

#[test]
fn chest_saves_a_song() {
    let mut c = Chest::new();
    c.notes[0] = 3;
    let mut v = Vfs::new();
    v.files[0].active = true;
    let mut w = window();
    assert_eq!(c.key(0x1F, &mut v, 2, &mut w), ChestKey::Stay);
    assert!(c.naming);
    // the prompt's key table is two places off the keyboard's: the keys
    // y, o, m, t type "tune"
    for &sc in &[0x16u8, 0x18, 0x32, 0x14] {
        assert_eq!(c.key(sc, &mut v, 2, &mut w), ChestKey::Stay);
    }
    // keys outside the table or marked `?` type nothing
    c.key(0x10, &mut v, 2, &mut w);
    c.key(0x02, &mut v, 2, &mut w);
    assert_eq!(c.name_len, 4);
    assert_eq!(&c.name[..4], b"tune");
    let mut w2 = window();
    c.render(&mut w2);
    assert_eq!(row(&w2, 0), "SAVE SONG");
    assert_eq!(row(&w2, 1), "Enter File Name: tune.chest");
    assert_eq!(c.key(0x1C, &mut v, 2, &mut w), ChestKey::Saved);
    assert!(!c.naming);
    let f = &v.files[1];
    assert!(f.active);
    assert_eq!(f.folder_id, 2);
    assert_eq!(f.name, name16("tune.chest"));
    assert_eq!(f.content[0], 0xC0);
    assert_eq!(f.content[1], 3);
    assert_eq!(f.content[2], REST);
    assert_eq!(f.content[17], 0);
    assert_eq!(row(&w, 1), "Saved!");
}

#[test]
fn chest_with_no_free_slot_stays_at_the_prompt() {
    let mut c = Chest::new();
    let mut v = Vfs::new();
    for i in 0..10 {
        v.files[i].active = true;
    }
    let mut w = window();
    c.key(0x1F, &mut v, 0, &mut w);
    c.key(0x12, &mut v, 0, &mut w);
    assert_eq!(c.name_len, 1);
    assert_eq!(c.key(0x1C, &mut v, 0, &mut w), ChestKey::Stay);
    assert!(c.naming);
    assert_eq!(c.key(0x0E, &mut v, 0, &mut w), ChestKey::Stay);
    assert_eq!(c.name_len, 0);
    assert_eq!(c.key(0x1C, &mut v, 0, &mut w), ChestKey::Stay);
    assert_eq!(c.key(0x01, &mut v, 0, &mut w), ChestKey::Stay);
    assert!(!c.naming);
    assert_eq!(c.key(0x19, &mut v, 0, &mut w), ChestKey::Play);
    assert_eq!(c.key(0x01, &mut v, 0, &mut w), ChestKey::Quit);
}

#[test]
fn save_song_file_takes_the_first_free_slot() {
    let mut v = Vfs::new();
    v.files[0].active = true;
    v.files[1].active = true;
    assert!(save_song_file(&mut v, 4, b"abcdefghi", &[REST; 16]));
    assert_eq!(v.files[2].name, *b"abcdefghi.chest\0");
    assert_eq!(v.files[2].folder_id, 4);
}

// ---------------------------------------------------------------- explorer

#[test]
fn explorer_lists_files() {
    let mut files = [File { name: [0; 16], content: [0; 512], folder_id: 0, active: false }; 10];
    let e = Explorer::new();
    let mut w = window();
    e.render(&files, &mut w);
    assert_eq!(row(&w, 0), "CARAPACE: [M] Folder [Enter] Run");
    assert_eq!(row(&w, 1), " (No files)");
    assert_eq!(w.screen[46 + 1] >> 8, 0x04);
    files[3] = file("a.claw", 1, "hello");
    files[7] = file("b.ferris", 0, "print ,,x,,");
    assert_eq!(Explorer::list(&files), vec![3, 7]);
    e.render(&files, &mut w);
    assert_eq!(row(&w, 1), " [Fld:1] a.claw");
    assert_eq!(w.screen[46] >> 8, 0x1F);
    assert_eq!(row(&w, 2), " [Fld:0] b.ferris");
    assert_eq!(w.screen[2 * 46] >> 8, 0x07);
}

#[test]
fn explorer_keys() {
    let mut files = [File { name: [0; 16], content: [0; 512], folder_id: 0, active: false }; 10];
    files[3] = file("a.claw", 4, "hello");
    files[7] = file("b.ferris", 0, "print ,,x,,");
    let mut e = Explorer::new();
    assert_eq!(e.key(0x48, &mut files), ExplorerKey::Stay);
    assert_eq!(e.sel, 0);
    e.key(0x50, &mut files);
    assert_eq!(e.sel, 1);
    e.key(0x50, &mut files);
    assert_eq!(e.sel, 1);
    assert_eq!(e.key(0x1C, &mut files), ExplorerKey::Open(7, false));
    e.key(0x48, &mut files);
    assert_eq!(e.key(0x1C, &mut files), ExplorerKey::Open(3, true));
    e.key(0x32, &mut files);
    assert_eq!(files[3].folder_id, 0);
    e.key(0x32, &mut files);
    assert_eq!(files[3].folder_id, 1);
    assert_eq!(e.key(0x01, &mut files), ExplorerKey::Quit);
    let mut none = [File { name: [0; 16], content: [0; 512], folder_id: 0, active: false }; 10];
    let mut e2 = Explorer::new();
    assert_eq!(e2.key(0x1C, &mut none), ExplorerKey::Stay);
    assert_eq!(e2.key(0x32, &mut none), ExplorerKey::Stay);
}

#[test]
fn explorer_folder_cycles_through_five() {
    let mut files = [File { name: [0; 16], content: [0; 512], folder_id: 0, active: false }; 10];
    files[0] = file("x", 2, "");
    let mut e = Explorer::new();
    for _ in 0..5 {
        e.key(0x32, &mut files);
    }
    assert_eq!(files[0].folder_id, 2);
}

#[test]
fn text_files_are_found_by_their_extension() {
    assert!(text_file(&name16("notes.claw")));
    assert!(text_file(&name16("a.clawz")));
    assert!(!text_file(&name16("notes.ferris")));
    assert!(!text_file(&name16("abcdefghijk.cla")));
    let mut n = [b'x'; 16];
    n[11..16].copy_from_slice(b".claw");
    assert!(!text_file(&n));
    n = [b'x'; 16];
    n[10..15].copy_from_slice(b".claw");
    assert!(text_file(&n));
}

#[test]
fn explorer_shows_a_text_file() {
    let f = file("a.claw", 0, "line one\nline two");
    let mut w = window();
    Explorer::show_text(&f, &mut w);
    assert_eq!(row(&w, 0), "Viewing Text File");
    assert_eq!(row(&w, 2), "line one");
    assert_eq!(row(&w, 3), "line two");
    Explorer::end_open(&mut w);
    assert_eq!(row(&w, 5), "[Press ESC to return]");
    let s = Explorer::run_file(&file("r.ferris", 3, "print ,,hi,,"), &mut w);
    assert_eq!(s.folder, 3);
    assert_eq!(s.frames.len(), 1);
    assert_eq!(s.frames[0].code.len(), 512);
    assert_eq!(row(&w, 0), "");
}

// ---------------------------------------------------------------- devices

#[test]
fn speaker_registers() {
    assert_eq!(speaker_divisor(0), None);
    // 1193180 / 1046 = 1140 = 0x474
    assert_eq!(speaker_divisor(1046), Some((0x74, 0x04)));
    // 1193180 / 1 = 0x1234DC: the high byte keeps 0x34
    assert_eq!(speaker_divisor(1), Some((0xDC, 0x34)));
    assert_eq!(speaker_on(0x10), Some(0x13));
    assert_eq!(speaker_on(0x13), None);
    assert_eq!(speaker_on(0x12), Some(0x13));
    assert_eq!(speaker_off(0x13), 0x10);
    assert_eq!(speaker_off(0xFF), 0xFC);
}

#[test]
fn controller_status_bits() {
    assert!(keyboard_ready(0x01));
    assert!(!keyboard_ready(0x21));
    assert!(!keyboard_ready(0x00));
    assert!(mouse_ready(0x21));
    assert!(!mouse_ready(0x20));
    assert!(controller_busy(0x02));
    assert!(!controller_busy(0x01));
    assert!(packet_start(0x08));
    assert!(!packet_start(0x07));
    assert_eq!(with_mouse_irq(0x45), 0x47);
    assert_eq!(with_mouse_irq(0x47), 0x47);
}

#[test]
fn mouse_packets() {
    assert_eq!(mouse_packet(0x09, 5, 0xFB), (5, -5, true, false));
    assert_eq!(mouse_packet(0x0A, 0x80, 0x7F), (-128, 127, false, true));
}

#[test]
fn timer_counts() {
    assert_eq!(pit_count(0xA9, 0x04), 1193);
    assert!(millisecond_over(0, 5));
    assert!(millisecond_over(1000, 5));
    assert!(!millisecond_over(4, 5));
}

// ---------------------------------------------------------------- startup

#[test]
fn boot_screen_centres_the_logo() {
    let f = logo_frame();
    assert_eq!(f.len(), 2000);
    assert_eq!(f[0], 0x0020);
    // row 9, column 28 starts the first logo row: eight blanks then `_`
    assert_eq!(f[9 * 80 + 36], make_cell(b'_', 0x0C));
    assert_eq!(f[9 * 80 + 28], make_cell(b' ', 0x0C));
    assert_eq!(f[9 * 80 + 27], 0x0020);
    // row 14 holds the name from column 29, in white
    assert_eq!(f[14 * 80 + 34], make_cell(b'F', 0x0F));
    assert_eq!(f[15 * 80 + 38], make_cell(b'O', 0x0F));
    assert_eq!(f[16 * 80 + 40], 0x0020);
    let m = startup_melody();
    assert_eq!(m, [(392, 120), (523, 150), (523, 150), (587, 120), (659, 120), (523, 350)]);
}

// ---------------------------------------------------------------- compositor

#[test]
fn frames_are_composed_and_not_repeated() {
    let d = Desktop::boot();
    let f = compose_frame(&d.windows, 0, 40, 12);
    // the background, red blocks
    assert_eq!(f[0], make_cell(0xDB, 0x0C));
    // the title bar of the focused window at (5, 3): " Terminal " from column 2
    assert_eq!(f[3 * 80 + 5 + 3], make_cell(b'T', 0x1F));
    assert_eq!(f[3 * 80 + 5], make_cell(b' ', 0x1F));
    // the main window has no close mark
    assert_eq!(f[3 * 80 + 5 + 43], make_cell(b' ', 0x1F));
    // its first text row
    assert_eq!(f[4 * 80 + 5], make_cell(b'W', 0x0A));
    // the cursor cell at (2, 2) is black on white
    assert_eq!(f[6 * 80 + 7], 0xF020);
    // the pointer
    assert_eq!(f[12 * 80 + 40], make_cell(b'+', 0x0C));
    let mut c = Compositor::new();
    assert!(c.composite_screen(&d.windows, 0, 40, 12).is_some());
    assert!(c.composite_screen(&d.windows, 0, 40, 12).is_none());
    c.mark_screen_dirty();
    assert!(c.composite_screen(&d.windows, 0, 40, 12).is_some());
    assert!(c.composite_screen(&d.windows, 0, 41, 12).is_some());
}

#[test]
fn other_windows_show_a_close_mark() {
    let mut d = Desktop::boot();
    d.open_new_window();
    let f = compose_frame(&d.windows, 1, 0, 0);
    // window 1 at (15, 5) is focused; its close mark three cells from the right
    assert_eq!(f[5 * 80 + 15 + 43], make_cell(b'X', 0x4F));
    // window 0 is grey where window 1 does not cover it
    assert_eq!(f[3 * 80 + 5 + 3], make_cell(b'T', 0x70));
    assert_eq!(f[0], make_cell(b'+', 0x0C));
}
