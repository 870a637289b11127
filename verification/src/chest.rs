//! Chest, the music box: a grid of sixteen steps and eight notes that plays
//! its tune and saves it as a ".chest" file.
use vstd::prelude::*;
use crate::screen::{Window, Term, Put, printed_all, blank_cells, put_all};
use crate::text::{
    save_song, t_save_song, enter_name, t_enter_name, chest_confirm, t_chest_confirm,
    chest_title, t_chest_title, chest_help, t_chest_help, name_keys, t_name_keys, saved, t_saved,
    chest_ext, t_chest_ext,
};
use crate::vfs::{Vfs, File, MAX_FILES};
use crate::search::{first_with, none_with, lemma_first_with_unique};
use crate::editor::named_file;

verus! {

/// Steps of a tune.
pub const STEPS: usize = 16;
/// Notes a step can play.
pub const NOTES: u8 = 8;
/// A step that plays nothing.
pub const REST: u8 = 255;
/// Letters of a song's file name, before its extension.
pub const SONG_NAME_MAX: usize = 9;
/// The first byte of a saved song.
pub const SONG_MAGIC: u8 = 0xC0;

/// The pitch of note `n`, in Hz: the C major scale from the top C down.
pub open spec fn note_freq(n: int) -> u32 {
    if n == 0 { 523 } else if n == 1 { 493 } else if n == 2 { 440 } else if n == 3 { 392 }
    else if n == 4 { 349 } else if n == 5 { 329 } else if n == 6 { 293 } else { 261 }
}

/// The grid: row `y` of column `x` shows a green `O` where step `x` plays
/// note `y`, else a grey dot; columns are two cells apart from column 2,
/// rows start at text row 3.
pub open spec fn grid_puts(notes: Seq<u8>) -> Seq<Put> {
    Seq::new(128, |k: int| {
        let y = k / 16;
        let x = k % 16;
        Put {
            x: (x * 2 + 2) as usize,
            y: (y + 3) as usize,
            c: if notes[x] == y { 0x4Fu8 } else { 0x2Eu8 },
            color: if notes[x] == y { 0x0Au8 } else { 0x08u8 },
        }
    })
}

/// The content of a saved song: the magic byte, the sixteen steps, then
/// zero bytes.
pub open spec fn song_content(notes: Seq<u8>) -> Seq<u8> {
    seq![SONG_MAGIC] + notes + Seq::new(495nat, |k: int| 0u8)
}

/// `f` is the song `notes` saved under `letters` in `folder`.
pub open spec fn is_song(f: File, folder: u8, letters: Seq<u8>, notes: Seq<u8>) -> bool {
    &&& f.active
    &&& f.folder_id == folder
    &&& f.name@ == named_file(letters, t_chest_ext())
    &&& f.content@ == song_content(notes)
}

/// The tune after a click on step `gx`, note `gy`: the step plays that
/// note, or rests when it played it already.
pub open spec fn toggled(notes: Seq<u8>, gx: int, gy: u8) -> Seq<u8> {
    notes.update(gx, if notes[gx] == gy { REST } else { gy })
}

/// Two clicks on the same cell of the grid give back the tune, unless the
/// step played another note before.
pub proof fn lemma_click_twice(notes: Seq<u8>, gx: int, gy: u8)
    requires
        0 <= gx < notes.len(),
        gy < NOTES,
        notes[gx] == gy || notes[gx] == REST,
    ensures
        toggled(toggled(notes, gx, gy), gx, gy) == notes,
{
    assert(toggled(toggled(notes, gx, gy), gx, gy) =~= notes);
}

/// A free file slot.
pub open spec fn free_slot() -> spec_fn(File) -> bool {
    |f: File| !f.active
}

/// What a key did in Chest.
#[derive(Clone, Copy, Debug, PartialEq, Eq)]
pub enum ChestKey {
    /// Nothing for the caller to do.
    Stay,
    /// ESC outside the prompt: leave Chest.
    Quit,
    /// P: play the tune (see `step_freq` and `draw_marker`).
    Play,
    /// The song was saved: show it for a moment.
    Saved,
}

/// The state of Chest: the note of each step, the mouse button as last
/// seen, and the save prompt with its letters.
pub struct Chest {
    pub notes: [u8; 16],
    pub prev_left: bool,
    pub naming: bool,
    pub name: [u8; 10],
    pub name_len: usize,
}

impl Chest {
    /// Every step plays one of the notes or rests, and the name fits.
    pub open spec fn wf(&self) -> bool {
        &&& self.name_len <= SONG_NAME_MAX
        &&& forall|i: int| 0 <= i < 16 ==> #[trigger] self.notes@[i] < NOTES || self.notes@[i] == REST
    }

    /// The letters of the name typed so far.
    pub open spec fn letters(&self) -> Seq<u8> {
        self.name@.take(self.name_len as int)
    }

    /// A silent tune, with the grid shown.
    pub fn new() -> (res: Chest)
        ensures
            res.wf(),
            res.notes@ == Seq::new(16, |k: int| REST),
            !res.prev_left,
            !res.naming,
            res.name_len == 0,
    {
        let res = Chest { notes: [REST; 16], prev_left: false, naming: false, name: [0u8; 10], name_len: 0 };
        assert(res.notes@ =~= Seq::new(16, |k: int| REST));
        res
    }

    /// The pitch that step `step` plays, if it plays one.
    pub fn step_freq(&self, step: usize) -> (res: Option<u32>)
        requires
            self.wf(),
            step < STEPS,
        ensures
            self.notes@[step as int] == REST ==> res is None,
            self.notes@[step as int] != REST ==> res == Some(note_freq(self.notes@[step as int] as int)),
    {
        let n = self.notes[step];
        if n == REST {
            return None;
        }
        let freqs: [u32; 8] = [523, 493, 440, 392, 349, 329, 293, 261];
        Some(freqs[n as usize])
    }

    /// The play marker above step `step`: a yellow arrow while it plays, a
    /// blank after.
    pub fn draw_marker(step: usize, on: bool, win: &mut Window)
        requires
            step < STEPS,
            old(win).wf(),
        ensures
            final(win).wf(),
            final(win).same_frame(*old(win)),
            final(win).cx == old(win).cx && final(win).cy == old(win).cy,
            final(win).screen@ == old(win).screen@.update(2 * 46 + step * 2 + 2,
                if on { crate::screen::cell(0x19, 0x0E) } else { crate::screen::cell(0x20, 0x0F) }),
    {
        if on {
            win.win_draw_char(step * 2 + 2, 2, 0x19, 0x0E);
        } else {
            win.win_draw_char(step * 2 + 2, 2, 0x20, 0x0F);
        }
    }

    /// Redraws Chest: the save prompt with the letters typed, or the title,
    /// the grid (see `grid_puts`) and the keys.
    pub fn render(&self, win: &mut Window)
        requires
            self.wf(),
            old(win).wf(),
        ensures
            final(win).wf(),
            final(win).same_frame(*old(win)),
            self.naming ==> final(win).term() == printed_all(printed_all(printed_all(printed_all(
                Term { cx: 0, cy: 0, cells: blank_cells() }, t_save_song(), 0x0E),
                t_enter_name(), 0x0F), self.letters(), 0x0A), t_chest_confirm(), 0x07),
            !self.naming ==> ({
                let t1 = printed_all(Term { cx: 0, cy: 0, cells: blank_cells() }, t_chest_title(), 0x0D);
                final(win).term() == printed_all(
                    Term { cx: t1.cx, cy: t1.cy, cells: put_all(t1.cells, grid_puts(self.notes@)) },
                    t_chest_help(), 0x0F)
            }),
    {
        win.win_clear();
        if self.naming {
            win.win_print_str(&save_song(), 0x0E);
            win.win_print_str(&enter_name(), 0x0F);
            let mut letters: Vec<u8> = Vec::new();
            let mut i: usize = 0;
            while i < self.name_len
                invariant
                    i <= self.name_len <= SONG_NAME_MAX,
                    letters@ == self.name@.take(i as int),
                decreases self.name_len - i,
            {
                letters.push(self.name[i]);
                assert(letters@ =~= self.name@.take(i + 1));
                i = i + 1;
            }
            win.win_print_str(letters.as_slice(), 0x0A);
            win.win_print_str(&chest_confirm(), 0x07);
        } else {
            win.win_print_str(&chest_title(), 0x0D);
            let mut ps: Vec<Put> = Vec::new();
            let mut k: usize = 0;
            while k < 128
                invariant
                    k <= 128,
                    self.wf(),
                    ps@ == grid_puts(self.notes@).take(k as int),
                decreases 128 - k,
            {
                let y = k / 16;
                let x = k % 16;
                let hit = self.notes[x] as usize == y;
                let (c, color): (u8, u8) = if hit { (0x4F, 0x0A) } else { (0x2E, 0x08) };
                ps.push(Put { x: x * 2 + 2, y: y + 3, c, color });
                assert(ps@ =~= grid_puts(self.notes@).take(k + 1));
                k = k + 1;
            }
            assert(ps@ =~= grid_puts(self.notes@));
            win.draw_puts(&ps);
            win.win_print_str(&chest_help(), 0x0F);
        }
    }

    /// The mouse, now at `(mx, my)` with the left button `left`, over the
    /// window at `(wx, wy)`: a fresh click outside the prompt on the grid
    /// sets that step to that note, or rests it when it played that note
    /// already.
    pub fn click(&mut self, mx: i32, my: i32, left: bool, wx: usize, wy: usize)
        requires
            old(self).wf(),
            0 <= mx < 80,
            0 <= my < 25,
            wx <= 80,
            wy <= 25,
        ensures
            final(self).wf(),
            final(self).prev_left == left,
            final(self).naming == old(self).naming,
            final(self).name == old(self).name,
            final(self).name_len == old(self).name_len,
            ({
                let rx = mx - wx;
                let ry = my - wy;
                if !old(self).naming && left && !old(self).prev_left && 3 <= ry <= 10 && 2 <= rx < 34 {
                    let gx = (rx - 2) / 2;
                    let gy = (ry - 3) as u8;
                    final(self).notes@ == toggled(old(self).notes@, gx, gy)
                } else {
                    final(self).notes == old(self).notes
                }
            }),
    {
        if !self.naming && left && !self.prev_left {
            let rx = mx - wx as i32;
            let ry = my - wy as i32;
            if ry >= 3 && ry <= 10 && rx >= 2 && rx < 34 {
                let gx = ((rx - 2) / 2) as usize;
                let gy = (ry - 3) as u8;
                let v = if self.notes[gx] == gy { REST } else { gy };
                self.notes[gx] = v;
            }
        }
        self.prev_left = left;
    }
}

/// The letter that a key types into the song's name: the byte of
/// `t_name_keys` for the scancodes 0x10 to 0x35, unless it is `?`.
pub open spec fn name_key(sc: u8) -> Option<u8> {
    if 0x10 <= sc <= 0x35 && t_name_keys()[sc - 0x10] != 0x3F {
        Some(t_name_keys()[sc - 0x10])
    } else {
        None
    }
}

/// Saves a song into the first free slot, in `folder` (see `is_song`);
/// with no free slot nothing changes. The result tells whether it saved.
pub fn save_song_file(vfs: &mut Vfs, folder: u8, letters: &[u8], notes: &[u8; 16]) -> (res: bool)
    requires
        letters.len() <= SONG_NAME_MAX,
    ensures
        forall|i: int| #[trigger] first_with(old(vfs).files@, free_slot(), i) ==> {
            &&& res
            &&& is_song(final(vfs).files@[i], folder, letters@, notes@)
            &&& final(vfs).files@ == old(vfs).files@.update(i, final(vfs).files@[i])
        },
        none_with(old(vfs).files@, free_slot()) ==> !res && final(vfs).files@ == old(vfs).files@,
{
    let mut slot: usize = 0;
    while slot < MAX_FILES && vfs.files[slot].active
        invariant
            slot <= MAX_FILES,
            vfs.files@ == old(vfs).files@,
            forall|j: int| 0 <= j < slot ==> !(free_slot())(#[trigger] vfs.files@[j]),
        decreases MAX_FILES - slot,
    {
        slot = slot + 1;
    }
    if slot == MAX_FILES {
        return false;
    }
    let ghost before = vfs.files@;
    assert(first_with(before, free_slot(), slot as int));
    let mut name = [0u8; 16];
    let ext = chest_ext();
    let mut i: usize = 0;
    while i < letters.len()
        invariant
            i <= letters.len() <= SONG_NAME_MAX,
            forall|j: int| 0 <= j < i ==> name@[j] == letters@[j],
            forall|j: int| i <= j < 16 ==> name@[j] == 0,
        decreases letters.len() - i,
    {
        name[i] = letters[i];
        i = i + 1;
    }
    let mut e: usize = 0;
    while e < 6
        invariant
            e <= 6,
            letters.len() <= SONG_NAME_MAX,
            ext@ == t_chest_ext(),
            forall|j: int| 0 <= j < letters.len() ==> name@[j] == letters@[j],
            forall|j: int| 0 <= j < e ==> name@[letters.len() + j] == ext@[j],
            forall|j: int| letters.len() + e <= j < 16 ==> name@[j] == 0,
        decreases 6 - e,
    {
        name[letters.len() + e] = ext[e];
        e = e + 1;
    }
    assert(name@ =~= named_file(letters@, t_chest_ext()));
    let mut content = [0u8; 512];
    content[0] = SONG_MAGIC;
    let mut k: usize = 0;
    while k < 16
        invariant
            k <= 16,
            content@[0] == SONG_MAGIC,
            forall|j: int| 0 <= j < k ==> content@[j + 1] == notes@[j],
            forall|j: int| k + 1 <= j < 512 ==> content@[j] == 0,
        decreases 16 - k,
    {
        content[k + 1] = notes[k];
        k = k + 1;
    }
    assert(content@ =~= song_content(notes@));
    vfs.files[slot] = File { name, content, folder_id: folder, active: true };
    proof {
        assert forall|j: int| #[trigger] first_with(before, free_slot(), j) implies j == slot by {
            lemma_first_with_unique(before, free_slot(), slot as int, j);
        }
        assert(vfs.files@ =~= before.update(slot as int, vfs.files@[slot as int]));
    }
    true
}

impl Chest {
    /// A key. At the save prompt: ESC leaves it and forgets the name; Enter,
    /// with a name typed, saves the song under it in `folder` (see
    /// `save_song_file`), prints "\nSaved!" in green and leaves the prompt,
    /// while with no free slot the prompt stays; backspace drops a letter; a
    /// key that types a letter (see `name_key`) adds it while fewer than
    /// `SONG_NAME_MAX` are typed. Outside the prompt: ESC quits, P plays,
    /// S opens the prompt.
    pub fn key(&mut self, sc: u8, vfs: &mut Vfs, folder: u8, win: &mut Window) -> (res: ChestKey)
        requires
            old(self).wf(),
            old(win).wf(),
        ensures
            final(self).wf(),
            final(win).wf(),
            final(win).same_frame(*old(win)),
            final(self).notes == old(self).notes,
            final(self).prev_left == old(self).prev_left,
            res != ChestKey::Saved ==> final(vfs).files@ == old(vfs).files@ && final(win).term() == old(win).term(),
            !old(self).naming ==> final(self).name == old(self).name && final(self).name_len == old(self).name_len
                && (if sc == 0x01 {
                    res == ChestKey::Quit && !final(self).naming
                } else if sc == 0x19 {
                    res == ChestKey::Play && !final(self).naming
                } else if sc == 0x1F {
                    res == ChestKey::Stay && final(self).naming
                } else {
                    res == ChestKey::Stay && !final(self).naming
                }),
            old(self).naming ==> if sc == 0x01 {
                res == ChestKey::Stay && !final(self).naming && final(self).name_len == 0
            } else if sc == 0x1C {
                if old(self).name_len > 0 && !none_with(old(vfs).files@, free_slot()) {
                    &&& res == ChestKey::Saved
                    &&& !final(self).naming
                    &&& final(self).letters() == old(self).letters()
                    &&& forall|i: int| #[trigger] first_with(old(vfs).files@, free_slot(), i) ==> {
                        &&& is_song(final(vfs).files@[i], folder, old(self).letters(), old(self).notes@)
                        &&& final(vfs).files@ == old(vfs).files@.update(i, final(vfs).files@[i])
                    }
                    &&& final(win).term() == printed_all(old(win).term(), t_saved(), 0x0A)
                } else {
                    res == ChestKey::Stay && final(self).naming && final(self).letters() == old(self).letters()
                }
            } else if sc == 0x0E {
                &&& res == ChestKey::Stay
                &&& final(self).naming
                &&& final(self).name == old(self).name
                &&& final(self).name_len == if old(self).name_len > 0 { old(self).name_len - 1 } else { 0 }
            } else {
                &&& res == ChestKey::Stay
                &&& final(self).naming
                &&& match name_key(sc) {
                    Some(c) => if old(self).name_len < SONG_NAME_MAX {
                        final(self).name@ == old(self).name@.update(old(self).name_len as int, c)
                            && final(self).name_len == old(self).name_len + 1
                    } else {
                        final(self).name == old(self).name && final(self).name_len == old(self).name_len
                    },
                    None => final(self).name == old(self).name && final(self).name_len == old(self).name_len,
                }
            },
    {
        if !self.naming {
            if sc == 0x01 {
                return ChestKey::Quit;
            }
            if sc == 0x19 {
                return ChestKey::Play;
            }
            if sc == 0x1F {
                self.naming = true;
            }
            return ChestKey::Stay;
        }
        if sc == 0x01 {
            self.naming = false;
            self.name_len = 0;
            return ChestKey::Stay;
        }
        if sc == 0x1C {
            if self.name_len > 0 {
                let mut letters: Vec<u8> = Vec::new();
                let mut i: usize = 0;
                while i < self.name_len
                    invariant
                        i <= self.name_len <= SONG_NAME_MAX,
                        letters@ == self.name@.take(i as int),
                    decreases self.name_len - i,
                {
                    letters.push(self.name[i]);
                    assert(letters@ =~= self.name@.take(i + 1));
                    i = i + 1;
                }
                let ok = save_song_file(vfs, folder, letters.as_slice(), &self.notes);
                proof {
                    crate::search::lemma_first_index(old(vfs).files@, free_slot());
                }
                if ok {
                    win.win_print_str(&saved(), 0x0A);
                    self.naming = false;
                    return ChestKey::Saved;
                }
            }
            return ChestKey::Stay;
        }
        if sc == 0x0E {
            if self.name_len > 0 {
                self.name_len = self.name_len - 1;
            }
            return ChestKey::Stay;
        }
        if sc >= 0x10 && sc <= 0x35 && self.name_len < SONG_NAME_MAX {
            let keys = name_keys();
            let c = keys[(sc - 0x10) as usize];
            if c != 0x3F {
                self.name[self.name_len] = c;
                self.name_len = self.name_len + 1;
            }
        }
        ChestKey::Stay
    }
}

} // verus!
