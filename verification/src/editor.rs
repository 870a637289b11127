//! The text editors of the desktop: Claw for plain text, the FerrisScript
//! editor with its three tabs, and the file name prompt they share.
use vstd::prelude::*;
use crate::keys::{scancode_to_char, spec_scancode_to_char};
use crate::screen::{Window, Term, printed, printed_all, blank_cells};
use crate::text::{
    claw_header, t_claw_header, save_as, t_save_as, saved, t_saved, claw_ext, t_claw_ext,
    ide_header, t_ide_header, tab_label, t_tab_label, two_lines, t_two_lines, done_text,
    t_done_text, ferris_ext, t_ferris_ext,
};
use crate::script::{Script, FrameV};
use crate::vfs::{Vfs, File, is_save};

verus! {

/// Bytes an editor buffer holds.
pub const TEXT_CAP: usize = 512;
/// Ticks of 10 ms that the name prompt waits for a key before it gives up.
pub const NAME_WAIT: u32 = 5000;
/// Letters of a Claw file name, before its extension.
pub const CLAW_NAME_MAX: usize = 11;

/// The byte that a key adds to an editor's text: none for a release or for
/// backspace, a newline for Enter, else what the key types unshifted.
pub open spec fn typed_byte(sc: u8) -> Option<u8> {
    if sc >= 0x80 || sc == 0x0E {
        None
    } else {
        spec_scancode_to_char(sc, false)
    }
}

/// `t1` is what a key makes of an editor's buffer `t0`: backspace drops
/// the last byte of the text (the byte itself stays in the buffer), a key
/// that types a byte appends it while the buffer has room; other keys change
/// nothing.
pub open spec fn typed_into(t0: TextBuf, t1: TextBuf, sc: u8) -> bool {
    if sc < 0x80 && sc == 0x0E {
        t1.bytes@ == t0.bytes@ && t1.len == (if t0.len > 0 { t0.len - 1 } else { 0 })
    } else {
        match typed_byte(sc) {
            Some(c) => if t0.len < TEXT_CAP {
                t1.bytes@ == t0.bytes@.update(t0.len as int, c) && t1.len == t0.len + 1
            } else {
                t1 == t0
            },
            None => t1 == t0,
        }
    }
}

/// Backspace takes back a byte just typed.
pub proof fn lemma_backspace_undoes(t0: TextBuf, t1: TextBuf, t2: TextBuf, sc: u8)
    requires
        t0.wf(),
        t0.len < TEXT_CAP,
        typed_byte(sc) is Some,
        typed_into(t0, t1, sc),
        typed_into(t1, t2, 0x0E),
    ensures
        t1@ == t0@.push(typed_byte(sc)->0),
        t2@ == t0@,
{
    assert(t1@ =~= t0@.push(typed_byte(sc)->0));
    assert(t2@ =~= t0@);
}

/// The bytes of an editor and how many of them are its text. Bytes past the
/// text keep what they held; a save writes all of them.
#[derive(Clone, Copy)]
pub struct TextBuf {
    pub bytes: [u8; 512],
    pub len: usize,
}

impl TextBuf {
    pub open spec fn wf(&self) -> bool {
        self.len <= TEXT_CAP
    }

    /// The text: the bytes before `len`.
    pub open spec fn view(&self) -> Seq<u8> {
        self.bytes@.take(self.len as int)
    }

    /// An empty buffer of zero bytes.
    pub fn new() -> (res: TextBuf)
        ensures
            res.wf(),
            res.len == 0,
            res.bytes@ == Seq::new(512, |k: int| 0u8),
    {
        let res = TextBuf { bytes: [0u8; 512], len: 0 };
        assert(res.bytes@ =~= Seq::new(512, |k: int| 0u8));
        res
    }

    /// Edits the text with a key (see `typed_into`).
    pub fn type_key(&mut self, sc: u8)
        requires
            old(self).wf(),
        ensures
            final(self).wf(),
            typed_into(*old(self), *final(self), sc),
    {
        if sc >= 0x80 {
            return;
        }
        if sc == 0x0E {
            if self.len > 0 {
                self.len = self.len - 1;
            }
            return;
        }
        match scancode_to_char(sc, false) {
            Some(c) => {
                if self.len < TEXT_CAP {
                    self.bytes[self.len] = c;
                    self.len = self.len + 1;
                }
            },
            None => {},
        }
    }

    /// The text as a vector.
    pub fn text(&self) -> (res: Vec<u8>)
        requires
            self.wf(),
        ensures
            res@ == self@,
    {
        let mut v: Vec<u8> = Vec::new();
        let mut i: usize = 0;
        while i < self.len
            invariant
                i <= self.len <= TEXT_CAP,
                v@ == self.bytes@.take(i as int),
            decreases self.len - i,
        {
            v.push(self.bytes[i]);
            assert(v@ =~= self.bytes@.take(i + 1));
            i = i + 1;
        }
        v
    }
}

/// What the name prompt does with a key.
#[derive(Clone, Copy, Debug, PartialEq, Eq)]
pub enum PromptStep {
    /// The prompt goes on waiting.
    Wait,
    /// The prompt is over: Enter or ESC (which leaves no name).
    Finish,
}

/// The file name prompt: the letters typed so far, at most `max` of them,
/// and the ticks left before it gives up.
#[derive(Clone, Copy)]
pub struct NamePrompt {
    pub name: [u8; 16],
    pub len: usize,
    pub max: usize,
    pub wait: u32,
}

impl NamePrompt {
    /// The letters fit the name with room after them, and the bytes after
    /// them are zero.
    pub open spec fn wf(&self) -> bool {
        &&& self.len <= self.max
        &&& self.max <= 16
        &&& self.wait <= NAME_WAIT
        &&& forall|j: int| self.len <= j < 16 ==> self.name@[j] == 0
    }

    /// The letters typed so far.
    pub open spec fn view(&self) -> Seq<u8> {
        self.name@.take(self.len as int)
    }

    /// A prompt for at most `max` letters, with the whole wait ahead; it
    /// prints "\nSave as: " in cyan.
    pub fn new(max: usize, win: &mut Window) -> (res: NamePrompt)
        requires
            max <= 16,
            old(win).wf(),
        ensures
            res.wf(),
            res.len == 0,
            res.max == max,
            res.wait == NAME_WAIT,
            final(win).wf(),
            final(win).same_frame(*old(win)),
            final(win).term() == printed_all(old(win).term(), t_save_as(), 0x0B),
    {
        win.win_print_str(&save_as(), 0x0B);
        NamePrompt { name: [0u8; 16], len: 0, max, wait: NAME_WAIT }
    }

    /// One tick of 10 ms without an answer yet: true once the wait is over.
    pub fn count_down(&mut self) -> (res: bool)
        requires
            old(self).wf(),
            old(self).wait > 0,
        ensures
            final(self).wf(),
            final(self).wait == old(self).wait - 1,
            final(self).name == old(self).name,
            final(self).len == old(self).len,
            final(self).max == old(self).max,
            res == (final(self).wait == 0),
    {
        self.wait = self.wait - 1;
        self.wait == 0
    }

    /// A key read during the prompt: the wait starts over; Enter finishes
    /// with the letters typed, ESC finishes with none, a key that types a
    /// byte adds it (echoed in white) while there is room.
    pub fn key(&mut self, sc: u8, win: &mut Window) -> (res: PromptStep)
        requires
            old(self).wf(),
            old(win).wf(),
        ensures
            final(self).wf(),
            final(win).wf(),
            final(win).same_frame(*old(win)),
            final(self).wait == NAME_WAIT,
            final(self).max == old(self).max,
            sc == 0x1C ==> res == PromptStep::Finish && final(self).name == old(self).name
                && final(self).len == old(self).len && final(win).term() == old(win).term(),
            sc == 0x01 ==> res == PromptStep::Finish && final(self).len == 0
                && final(self).name@ == Seq::new(16, |k: int| 0u8)
                && final(win).term() == old(win).term(),
            sc != 0x1C && sc != 0x01 ==> res == PromptStep::Wait && match spec_scancode_to_char(sc, false) {
                Some(c) => if old(self).len < old(self).max {
                    &&& final(self).name@ == old(self).name@.update(old(self).len as int, c)
                    &&& final(self).len == old(self).len + 1
                    &&& final(win).term() == printed(old(win).term(), c, 0x0F)
                } else {
                    final(self).name == old(self).name && final(self).len == old(self).len
                        && final(win).term() == old(win).term()
                },
                None => final(self).name == old(self).name && final(self).len == old(self).len
                    && final(win).term() == old(win).term(),
            },
    {
        self.wait = NAME_WAIT;
        if sc == 0x1C {
            return PromptStep::Finish;
        }
        if sc == 0x01 {
            self.len = 0;
            self.name = [0u8; 16];
            return PromptStep::Finish;
        }
        match scancode_to_char(sc, false) {
            Some(c) => {
                if self.len < self.max {
                    self.name[self.len] = c;
                    self.len = self.len + 1;
                    win.win_print_char(c, 0x0F);
                }
            },
            None => {},
        }
        PromptStep::Wait
    }
}

/// A file name: the letters, then the extension, then zero bytes up to 16.
pub open spec fn named_file(letters: Seq<u8>, ext: Seq<u8>) -> Seq<u8> {
    letters + ext + Seq::new((16 - letters.len() - ext.len()) as nat, |k: int| 0u8)
}

impl NamePrompt {
    /// The name typed so far followed by `ext` (see `named_file`).
    pub fn file_name(&self, ext: &[u8]) -> (res: [u8; 16])
        requires
            self.wf(),
            self.max + ext.len() <= 16,
        ensures
            res@ == named_file(self@, ext@),
    {
        let mut res = self.name;
        let mut i: usize = 0;
        while i < ext.len()
            invariant
                self.wf(),
                self.max + ext.len() <= 16,
                i <= ext.len(),
                forall|j: int| 0 <= j < self.len ==> res@[j] == self.name@[j],
                forall|j: int| 0 <= j < i ==> res@[self.len + j] == ext@[j],
                forall|j: int| self.len + i <= j < 16 ==> res@[j] == 0,
            decreases ext.len() - i,
        {
            res[self.len + i] = ext[i];
            i = i + 1;
        }
        assert(res@ =~= named_file(self@, ext@));
        res
    }
}

/// What a key does in the Claw editor.
#[derive(Clone, Copy, Debug, PartialEq, Eq)]
pub enum ClawKey {
    /// ESC: leave the editor.
    Quit,
    /// F10: ask for a file name and save.
    SaveAs,
    /// Any other key: edits the text (see `TextBuf::type_key`).
    Edit,
}

/// The Claw text editor.
pub struct Claw {
    pub text: TextBuf,
}

impl Claw {
    pub open spec fn wf(&self) -> bool {
        self.text.wf()
    }

    /// An empty editor.
    pub fn new() -> (res: Claw)
        ensures
            res.wf(),
            res.text.len == 0,
            res.text.bytes@ == Seq::new(512, |k: int| 0u8),
    {
        Claw { text: TextBuf::new() }
    }

    /// Redraws the editor: its title in yellow, then the text in white.
    pub fn render(&self, win: &mut Window)
        requires
            self.wf(),
            old(win).wf(),
        ensures
            final(win).wf(),
            final(win).same_frame(*old(win)),
            final(win).term() == printed_all(
                printed_all(Term { cx: 0, cy: 0, cells: blank_cells() }, t_claw_header(), 0x0E),
                self.text@, 0x0F),
    {
        win.win_clear();
        win.win_print_str(&claw_header(), 0x0E);
        let t = self.text.text();
        win.win_print_str(t.as_slice(), 0x0F);
    }

    /// A key: ESC and F10 leave the text as it is; any other key edits it.
    pub fn key(&mut self, sc: u8) -> (res: ClawKey)
        requires
            old(self).wf(),
        ensures
            final(self).wf(),
            sc == 0x01 ==> res == ClawKey::Quit && final(self).text == old(self).text,
            sc == 0x44 ==> res == ClawKey::SaveAs && final(self).text == old(self).text,
            sc != 0x01 && sc != 0x44 ==> res == ClawKey::Edit && typed_into(old(self).text, final(self).text, sc),
    {
        if sc == 0x01 {
            return ClawKey::Quit;
        }
        if sc == 0x44 {
            return ClawKey::SaveAs;
        }
        self.text.type_key(sc);
        ClawKey::Edit
    }

    /// Starts the save: prints the prompt and waits for at most
    /// `CLAW_NAME_MAX` letters.
    pub fn begin_save(&self, win: &mut Window) -> (res: NamePrompt)
        requires
            old(win).wf(),
        ensures
            res.wf(),
            res.len == 0,
            res.max == CLAW_NAME_MAX,
            res.wait == NAME_WAIT,
            final(win).wf(),
            final(win).same_frame(*old(win)),
            final(win).term() == printed_all(old(win).term(), t_save_as(), 0x0B),
    {
        NamePrompt::new(CLAW_NAME_MAX, win)
    }

    /// Ends the save: with a name typed, the whole buffer is saved under the
    /// name and ".claw", and "\nSaved!" printed in green; with none, nothing
    /// happens. The result tells whether it saved.
    pub fn finish_save(&self, p: &NamePrompt, vfs: &mut Vfs, win: &mut Window) -> (res: bool)
        requires
            p.wf(),
            p.max == CLAW_NAME_MAX,
            old(win).wf(),
        ensures
            res == (p.len > 0),
            final(win).wf(),
            final(win).same_frame(*old(win)),
            res ==> {
                &&& exists|name: [u8; 16]| name@ == named_file(p@, t_claw_ext())
                    && is_save(old(vfs).files@, final(vfs).files@, name, self.text.bytes)
                &&& final(win).term() == printed_all(old(win).term(), t_saved(), 0x0A)
            },
            !res ==> final(vfs).files@ == old(vfs).files@ && final(win).term() == old(win).term(),
    {
        if p.len == 0 {
            return false;
        }
        let name = p.file_name(&claw_ext());
        vfs.save_to_vfs(name, &self.text.bytes);
        win.win_print_str(&saved(), 0x0A);
        true
    }
}

/// Letters of a FerrisScript file name, before its extension.
pub const SCRIPT_NAME_MAX: usize = 9;

/// What a key does in the FerrisScript editor.
#[derive(Clone, Copy, Debug, PartialEq, Eq)]
pub enum IdeKey {
    /// ESC: leave the editor.
    Quit,
    /// F5: run the script of the current tab.
    Run,
    /// F10: ask for a file name and save the current tab.
    SaveAs,
    /// F1 to F3 switch tabs; any other key edits the current tab.
    Edit,
}

/// The FerrisScript editor: three tabs, one of them shown.
pub struct Ide {
    pub tabs: [TextBuf; 3],
    pub current: usize,
}

/// The tab bar: " Tab1 Tab2 Tab3", the current tab in white on blue, the
/// others in grey.
pub open spec fn tab_bar(t: Term, current: int) -> Term {
    let c = |i: int| if i == current { 0x1Fu8 } else { 0x07u8 };
    let t1 = printed_all(printed_all(t, t_tab_label(), c(0)), seq![0x31u8], c(0));
    let t2 = printed_all(printed_all(t1, t_tab_label(), c(1)), seq![0x32u8], c(1));
    printed_all(printed_all(t2, t_tab_label(), c(2)), seq![0x33u8], c(2))
}

impl Ide {
    pub open spec fn wf(&self) -> bool {
        &&& self.current < 3
        &&& forall|i: int| 0 <= i < 3 ==> (#[trigger] self.tabs@[i]).wf()
    }

    /// Three empty tabs, the first shown.
    pub fn new() -> (res: Ide)
        ensures
            res.wf(),
            res.current == 0,
            forall|i: int| 0 <= i < 3 ==> (#[trigger] res.tabs@[i]).len == 0,
    {
        let t = TextBuf::new();
        Ide { tabs: [t, t, t], current: 0 }
    }

    /// Redraws the editor: the title in yellow, the tab bar, a blank line
    /// and the current tab's text in white.
    pub fn render(&self, win: &mut Window)
        requires
            self.wf(),
            old(win).wf(),
        ensures
            final(win).wf(),
            final(win).same_frame(*old(win)),
            final(win).term() == printed_all(printed_all(
                tab_bar(printed_all(Term { cx: 0, cy: 0, cells: blank_cells() }, t_ide_header(), 0x0E),
                    self.current as int),
                t_two_lines(), 0x07), self.tabs@[self.current as int]@, 0x0F),
    {
        win.win_clear();
        win.win_print_str(&ide_header(), 0x0E);
        let ghost t0 = win.term();
        let mut i: usize = 0;
        while i < 3
            invariant
                i <= 3,
                self.wf(),
                win.wf(),
                win.same_frame(*old(win)),
                ({
                    let c = |k: int| if k == self.current { 0x1Fu8 } else { 0x07u8 };
                    let t1 = printed_all(printed_all(t0, t_tab_label(), c(0)), seq![0x31u8], c(0));
                    let t2 = printed_all(printed_all(t1, t_tab_label(), c(1)), seq![0x32u8], c(1));
                    let t3 = printed_all(printed_all(t2, t_tab_label(), c(2)), seq![0x33u8], c(2));
                    &&& i == 0 ==> win.term() == t0
                    &&& i == 1 ==> win.term() == t1
                    &&& i == 2 ==> win.term() == t2
                    &&& i == 3 ==> win.term() == t3
                }),
            decreases 3 - i,
        {
            let color: u8 = if i == self.current { 0x1F } else { 0x07 };
            win.win_print_str(&tab_label(), color);
            let digit: u8 = if i == 0 { 0x31 } else if i == 1 { 0x32 } else { 0x33 };
            let ghost before = win.term();
            win.win_print_char(digit, color);
            proof {
                crate::screen::lemma_printed_one(before, digit, color);
            }
            i = i + 1;
        }
        win.win_print_str(&two_lines(), 0x07);
        let t = self.tabs[self.current].text();
        win.win_print_str(t.as_slice(), 0x0F);
    }

    /// A key: ESC, F5 and F10 are handed back; F1 to F3 switch to tab one
    /// to three; any other key edits the current tab.
    pub fn key(&mut self, sc: u8) -> (res: IdeKey)
        requires
            old(self).wf(),
        ensures
            final(self).wf(),
            sc == 0x01 ==> res == IdeKey::Quit && *final(self) == *old(self),
            sc == 0x3F ==> res == IdeKey::Run && *final(self) == *old(self),
            sc == 0x44 ==> res == IdeKey::SaveAs && *final(self) == *old(self),
            0x3B <= sc <= 0x3D ==> res == IdeKey::Edit && final(self).tabs == old(self).tabs
                && final(self).current == sc - 0x3B,
            sc != 0x01 && sc != 0x3F && sc != 0x44 && !(0x3B <= sc <= 0x3D) ==> {
                let k = old(self).current as int;
                &&& res == IdeKey::Edit
                &&& final(self).current == old(self).current
                &&& final(self).tabs@ == old(self).tabs@.update(k, final(self).tabs@[k])
                &&& typed_into(old(self).tabs@[k], final(self).tabs@[k], sc)
            },
    {
        if sc == 0x01 {
            return IdeKey::Quit;
        }
        if sc == 0x3B {
            self.current = 0;
            return IdeKey::Edit;
        }
        if sc == 0x3C {
            self.current = 1;
            return IdeKey::Edit;
        }
        if sc == 0x3D {
            self.current = 2;
            return IdeKey::Edit;
        }
        if sc == 0x3F {
            return IdeKey::Run;
        }
        if sc == 0x44 {
            return IdeKey::SaveAs;
        }
        let k = self.current;
        let mut t = self.tabs[k];
        t.type_key(sc);
        self.tabs[k] = t;
        assert(self.tabs@ =~= old(self).tabs@.update(k as int, t));
        IdeKey::Edit
    }

    /// Starts a run of the current tab's text, in folder 0.
    pub fn run(&self) -> (res: Script)
        requires
            self.wf(),
        ensures
            res.wf(),
            res.folder == 0,
            res@ == seq![FrameV { code: self.tabs@[self.current as int]@, pos: 0, looping: None }],
    {
        let t = self.tabs[self.current].text();
        Script::new(t.as_slice(), 0)
    }

    /// Prints the end of a run: "\n[Done]" in dark grey.
    pub fn finish_run(win: &mut Window)
        requires
            old(win).wf(),
        ensures
            final(win).wf(),
            final(win).same_frame(*old(win)),
            final(win).term() == printed_all(old(win).term(), t_done_text(), 0x08),
    {
        win.win_print_str(&done_text(), 0x08);
    }

    /// Starts the save: prints the prompt and waits for at most
    /// `SCRIPT_NAME_MAX` letters.
    pub fn begin_save(&self, win: &mut Window) -> (res: NamePrompt)
        requires
            old(win).wf(),
        ensures
            res.wf(),
            res.len == 0,
            res.max == SCRIPT_NAME_MAX,
            res.wait == NAME_WAIT,
            final(win).wf(),
            final(win).same_frame(*old(win)),
            final(win).term() == printed_all(old(win).term(), t_save_as(), 0x0B),
    {
        NamePrompt::new(SCRIPT_NAME_MAX, win)
    }

    /// Ends the save: with a name typed, the current tab's whole buffer is
    /// saved under the name and ".ferris", and "\nSaved!" printed in green;
    /// with none, nothing happens. The result tells whether it saved.
    pub fn finish_save(&self, p: &NamePrompt, vfs: &mut Vfs, win: &mut Window) -> (res: bool)
        requires
            self.wf(),
            p.wf(),
            p.max == SCRIPT_NAME_MAX,
            old(win).wf(),
        ensures
            res == (p.len > 0),
            final(win).wf(),
            final(win).same_frame(*old(win)),
            res ==> {
                &&& exists|name: [u8; 16]| name@ == named_file(p@, t_ferris_ext())
                    && is_save(old(vfs).files@, final(vfs).files@, name, self.tabs@[self.current as int].bytes)
                &&& final(win).term() == printed_all(old(win).term(), t_saved(), 0x0A)
            },
            !res ==> final(vfs).files@ == old(vfs).files@ && final(win).term() == old(win).term(),
    {
        if p.len == 0 {
            return false;
        }
        let name = p.file_name(&ferris_ext());
        vfs.save_to_vfs(name, &self.tabs[self.current].bytes);
        win.win_print_str(&saved(), 0x0A);
        true
    }
}

} // verus!
