use lib::screen::Window;
use lib::script::{dec_text, find_fn, find_fn_in, read_number, Script, Status, Vars, MAX_FRAMES};
use lib::vfs::File;

fn window() -> Window {
    let mut w = Window::new();
    w.active = true;
    w.win_clear();
    w
}

fn row(w: &Window, y: usize) -> String {
    let mut s = String::new();
    for x in 0..44 {
        s.push((w.screen[y * 46 + x] & 0xFF) as u8 as char);
    }
    s.trim_end().to_string()
}

fn file(name: &str, folder: u8, content: &str) -> File {
    let mut f = File { name: [0; 16], content: [0; 512], folder_id: folder, active: true };
    f.name[..name.len()].copy_from_slice(name.as_bytes());
    f.content[..content.len()].copy_from_slice(content.as_bytes());
    f
}

fn no_files() -> [File; 10] {
    let e = File { name: [0; 16], content: [0; 512], folder_id: 0, active: false };
    [e; 10]
}

/// Runs a script to its end; a loop is ended with ESC after `rounds`
/// rounds.
fn run_with(code: &str, files: &[File; 10], folder: u8, vars: &mut Vars, win: &mut Window, rounds: usize) -> Status {
    let mut s = Script::new(code.as_bytes(), folder);
    let mut ticks = 0;
    for _ in 0..100000 {
        match s.step(vars, win, files) {
            Status::Running => {}
            Status::Tick => {
                ticks += 1;
                let key = if ticks > rounds { Some(0x01) } else { None };
                s.tick(key, win);
            }
            st => return st,
        }
    }
    panic!("the script did not end");
}

fn run(code: &str) -> (Window, Status) {
    let mut w = window();
    let mut vars = Vars::new();
    let st = run_with(code, &no_files(), 0, &mut vars, &mut w, 0);
    (w, st)
}

#[test]
fn print_a_literal() {
    let (w, st) = run("print ,,Hello Ferris,,");
    assert_eq!(st, Status::Done);
    assert_eq!(row(&w, 0), "Hello Ferris");
    assert_eq!((w.cx, w.cy), (0, 1));
    assert_eq!(w.screen[0] >> 8, 0x0F);
}

#[test]
fn print_an_unknown_name_prints_the_name() {
    let (w, _) = run("print nobody");
    assert_eq!(row(&w, 0), "nobody");
}

#[test]
fn u8_variables_wrap() {
    let (w, _) = run("var u8 x = 300\nprint x\nadd x 250\nprint x\nsub x 40\nprint x");
    assert_eq!(row(&w, 0), "44");
    assert_eq!(row(&w, 1), "38");
    assert_eq!(row(&w, 2), "254");
}

#[test]
fn i8_variables_clamp_then_wrap() {
    let (w, _) = run("var i8 y = -200\nadd y 0\nsub y 1\nprint y\nvar i8 z = 90\nadd z -100\nprint z");
    assert_eq!(row(&w, 0), "127");
    assert_eq!(row(&w, 1), "-10");
}

#[test]
fn strings_and_booleans() {
    let (w, _) = run("var str s = ,,crab,,\nvar bool b = maybe\nvar bool t = true\nprint s\nprint b\nprint t");
    assert_eq!(row(&w, 0), "crab");
    assert_eq!(row(&w, 1), "maybe");
    assert_eq!(row(&w, 2), "true");
}

#[test]
fn redeclaring_reuses_the_slot() {
    let mut w = window();
    let mut vars = Vars::new();
    run_with("var u8 n = 5\nvar u8 n = 7\nprint n", &no_files(), 0, &mut vars, &mut w, 0);
    assert_eq!(row(&w, 0), "7");
    let live = vars.slots.iter().filter(|v| v.active).count();
    assert_eq!(live, 1);
}

#[test]
fn variables_outlive_a_run() {
    let mut w = window();
    let mut vars = Vars::new();
    run_with("var u8 keep = 9", &no_files(), 0, &mut vars, &mut w, 0);
    run_with("print keep", &no_files(), 0, &mut vars, &mut w, 0);
    assert_eq!(row(&w, 0), "9");
}

#[test]
fn a_literal_too_large_stops_the_machine() {
    let (_, st) = run("var u8 x = 70000");
    assert_eq!(st, Status::Crashed);
    let (_, st) = run("var u8 x = 65535\nprint x");
    assert_eq!(st, Status::Done);
}

#[test]
fn printing_the_lowest_i8_stops_the_machine() {
    let (w, st) = run("var i8 m = -128\nprint m");
    assert_eq!(st, Status::Crashed);
    assert_eq!(row(&w, 0), "-");
}

#[test]
fn call_runs_a_function_of_the_folder() {
    let mut files = no_files();
    files[3] = file("lib.ferris", 2, "fn/greet/print ,,hi,,\nfn/other/print ,,no,,");
    let mut w = window();
    let mut vars = Vars::new();
    let st = run_with("call fn greet\nprint ,,after,,", &files, 2, &mut vars, &mut w, 0);
    assert_eq!(st, Status::Done);
    assert_eq!(row(&w, 0), "hi");
    assert_eq!(row(&w, 1), "after");
    // another folder does not see it
    let mut w = window();
    run_with("call fn greet\nprint ,,after,,", &files, 1, &mut vars, &mut w, 0);
    assert_eq!(row(&w, 0), "after");
}

#[test]
fn find_fn_takes_the_body_up_to_the_next_function() {
    let mut files = no_files();
    files[1] = file("a.ferris", 0, "fn/f/print ,,x,,fn/g/");
    let b = find_fn(&files, 0, b"f").unwrap();
    assert_eq!(&b[..], b"print ,,x,,");
    assert!(find_fn(&files, 0, b"h").is_none());
    let g = find_fn_in(&files[1].content, b"g").unwrap();
    assert_eq!(g.len(), 489);
    assert!(g.iter().all(|&c| c == 0));
}

#[test]
fn recursion_stops_at_the_frame_limit() {
    let mut files = no_files();
    files[0] = file("r.ferris", 0, "fn/r/print ,,r,,\ncall fn r");
    let mut w = window();
    let mut vars = Vars::new();
    let st = run_with("call fn r", &files, 0, &mut vars, &mut w, 0);
    assert_eq!(st, Status::Done);
    assert_eq!(MAX_FRAMES, 11);
    // the first call and nine nested ones print; the eleventh frame cannot
    // call further
    for y in 0..10 {
        assert_eq!(row(&w, y), "r");
    }
    assert_eq!(row(&w, 10), "");
}

#[test]
fn loop_repeats_until_escape() {
    let mut w = window();
    let mut vars = Vars::new();
    let st = run_with("var u8 c = 0\nloop.loop/add c 1\nprint c", &no_files(), 0, &mut vars, &mut w, 3);
    assert_eq!(st, Status::Done);
    assert_eq!(row(&w, 0), "");
    assert_eq!(row(&w, 1), "[Loop Terminated]");
    assert_eq!(row(&w, 2), "3");
}

#[test]
fn read_number_stops_at_the_limit() {
    assert_eq!(read_number(b"123x", 0, 65535), (3, Some(123)));
    assert_eq!(read_number(b"x", 0, 65535), (0, Some(0)));
    assert_eq!(read_number(b"70000", 0, 65535).1, None);
}

#[test]
fn dec_text_of_numbers() {
    assert_eq!(dec_text(0), b"0".to_vec());
    assert_eq!(dec_text(907), b"907".to_vec());
    assert_eq!(dec_text(4294967295), b"4294967295".to_vec());
}

#[test]
fn numbers_read_back_from_their_text() {
    for &n in &[0u32, 7, 10, 255, 65535] {
        let t = dec_text(n);
        assert_eq!(read_number(&t, 0, 65535), (t.len(), Some(n as u16)));
    }
}

#[test]
fn add_then_sub_gives_the_value_back() {
    let (w, _) = run("var u8 x = 200\nadd x 100\nsub x 100\nprint x\nvar i8 y = -100\nadd y 90\nsub y 90\nprint y");
    assert_eq!(row(&w, 0), "200");
    assert_eq!(row(&w, 1), "-100");
}

#[test]
fn live_slots_stay_first_and_apart() {
    let mut w = window();
    let mut vars = Vars::new();
    run_with("var u8 a = 1\nvar u8 b = 2\nvar u8 a = 3\nvar str c = ,,x,,\nvar bool b = true",
        &no_files(), 0, &mut vars, &mut w, 0);
    let live: Vec<bool> = vars.slots.iter().map(|v| v.active).collect();
    assert_eq!(&live[..4], &[true, true, true, false]);
    assert!(live[3..].iter().all(|&a| !a));
    assert_eq!(&vars.slots[0].name[..2], b"a\0");
    assert_eq!(&vars.slots[1].name[..2], b"b\0");
    assert_eq!(&vars.slots[2].name[..2], b"c\0");
}

#[test]
fn a_finished_call_leaves_the_stack_as_it_was() {
    let mut files = no_files();
    files[0] = file("f.ferris", 0, "fn/f/print ,,in,,\ncall fn g\nfn/g/print ,,deeper,,");
    let mut w = window();
    let mut vars = Vars::new();
    let mut s = Script::new(b"call fn f\nprint ,,out,,", 0);
    let mut deepest = 0;
    let mut back = false;
    loop {
        let before = s.frames.len();
        if before == 0 {
            break;
        }
        let pos = s.frames[0].pos;
        let st = s.step(&mut vars, &mut w, &files);
        if st != Status::Running {
            break;
        }
        deepest = deepest.max(s.frames.len());
        if before > 1 && s.frames.len() == 1 {
            back = true;
            assert_eq!(s.frames[0].pos, pos);
            assert_eq!(&s.frames[0].code[..], b"call fn f\nprint ,,out,,");
        }
    }
    assert!(back);
    assert_eq!(deepest, 3);
    assert_eq!(row(&w, 0), "in");
    assert_eq!(row(&w, 1), "deeper");
    assert_eq!(row(&w, 2), "out");
}

#[test]
fn a_run_without_loops_ends() {
    let mut files = no_files();
    files[0] = file("f.ferris", 0, "fn/f/var u8 a = 1\nadd a 2\nprint a\ncall fn g\nfn/g/print ,,g,,");
    let mut w = window();
    let mut vars = Vars::new();
    let mut s = Script::new(b"call fn f\ncall fn f\nprint ,,end,,", 0);
    let mut steps = 0;
    while s.step(&mut vars, &mut w, &files) == Status::Running {
        steps += 1;
        assert!(steps < 10000);
    }
    assert!(s.frames.is_empty());
    assert_eq!(row(&w, 4), "end");
}
