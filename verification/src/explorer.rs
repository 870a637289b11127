//! Carapace, the file explorer: lists the files, moves them between
//! folders, shows text files and runs scripts.
use vstd::prelude::*;
use crate::screen::{Window, Term, printed_all, blank_cells};
use crate::text::{
    carapace_header, t_carapace_header, fld_open, t_fld_open, fld_close, t_fld_close, newline,
    t_newline, no_files, t_no_files, viewing, t_viewing, press_esc, t_press_esc, claw_ext,
    t_claw_ext,
};
use crate::vfs::{File, MAX_FILES, NUM_FOLDERS, text_of, text_len, lemma_text_len_bounds, lemma_text_len_is};
use crate::script::Script;

verus! {

/// The slots of the active files among the first `n`, in order.
pub open spec fn listed_upto(files: Seq<File>, n: int) -> Seq<int>
    decreases n,
{
    if n <= 0 {
        Seq::empty()
    } else if files[n - 1].active {
        listed_upto(files, n - 1).push(n - 1)
    } else {
        listed_upto(files, n - 1)
    }
}

/// The slots of the active files, in order.
pub open spec fn listed(files: Seq<File>) -> Seq<int> {
    listed_upto(files, files.len() as int)
}

pub proof fn lemma_listed_upto(files: Seq<File>, n: int)
    requires
        0 <= n <= files.len(),
    ensures
        listed_upto(files, n).len() <= n,
        forall|k: int| 0 <= k < listed_upto(files, n).len() ==> 0 <= #[trigger] listed_upto(files, n)[k] < n
            && files[listed_upto(files, n)[k]].active,
    decreases n,
{
    if n > 0 {
        lemma_listed_upto(files, n - 1);
    }
}

/// Every folder number of an active file can be shown as one byte.
pub open spec fn folders_shown(files: Seq<File>) -> bool {
    forall|i: int| 0 <= i < files.len() && (#[trigger] files[i]).active ==> files[i].folder_id <= 0xFF - 0x30
}

/// One line of the listing: " [Fld:", the folder digit and "] " in the
/// line's colour, the name in it too, then a newline in grey.
pub open spec fn file_line(t: Term, f: File, color: u8) -> Term {
    let t1 = printed_all(t, t_fld_open(), color);
    let t2 = printed_all(t1, seq![(f.folder_id + 0x30) as u8], color);
    let t3 = printed_all(t2, t_fld_close(), color);
    let t4 = printed_all(t3, f.file_name(), color);
    printed_all(t4, t_newline(), 0x07)
}

/// The listing of the active files among the first `n`: the one at place
/// `sel` in white on blue, the others in grey.
pub open spec fn listing_upto(t: Term, files: Seq<File>, sel: int, n: int) -> Term
    decreases n,
{
    if n <= 0 {
        t
    } else {
        let before = listing_upto(t, files, sel, n - 1);
        if files[n - 1].active {
            let place = listed_upto(files, n - 1).len() as int;
            file_line(before, files[n - 1], if place == sel { 0x1Fu8 } else { 0x07u8 })
        } else {
            before
        }
    }
}

/// The bytes ".claw" start at `i` of the name.
pub open spec fn claw_at(name: Seq<u8>, i: int) -> bool {
    name.subrange(i, i + 5) == t_claw_ext()
}

/// A text file: ".claw" starts somewhere in the first eleven bytes of the
/// name.
pub open spec fn is_text_file(name: Seq<u8>) -> bool {
    exists|i: int| 0 <= i < 11 && #[trigger] claw_at(name, i)
}

/// The folder that M moves a file in folder `f` to.
pub open spec fn next_folder(f: u8) -> u8 {
    ((f + 1) % (NUM_FOLDERS as int)) as u8
}

/// Pressing M five times brings a file back to its folder.
pub proof fn lemma_folders_cycle(f: u8)
    requires
        f < NUM_FOLDERS,
    ensures
        next_folder(next_folder(next_folder(next_folder(next_folder(f))))) == f,
{
}

/// What a key asks of the explorer's caller.
#[derive(Clone, Copy, Debug, PartialEq, Eq)]
pub enum ExplorerKey {
    /// Nothing to do.
    Stay,
    /// ESC: leave the explorer.
    Quit,
    /// Enter: open the file in this slot; `true` for a text file, which is
    /// shown, else its content runs as a script.
    Open(usize, bool),
}

/// The explorer: the place of the selected file in the listing.
pub struct Explorer {
    pub sel: usize,
}

impl Explorer {
    /// The selection is a listed file, or the top when none is listed.
    pub open spec fn fits(&self, files: Seq<File>) -> bool {
        self.sel == 0 || self.sel < listed(files).len()
    }

    /// The top of the listing selected.
    pub fn new() -> (res: Explorer)
        ensures
            res.sel == 0,
    {
        Explorer { sel: 0 }
    }

    /// The slots of the active files, in order.
    pub fn list(files: &[File; 10]) -> (res: Vec<usize>)
        ensures
            res@.len() == listed(files@).len(),
            forall|k: int| 0 <= k < res@.len() ==> res@[k] == #[trigger] listed(files@)[k],
    {
        let mut v: Vec<usize> = Vec::new();
        let mut i: usize = 0;
        while i < MAX_FILES
            invariant
                i <= MAX_FILES,
                v@.len() == listed_upto(files@, i as int).len(),
                forall|k: int| 0 <= k < v@.len() ==> v@[k] == #[trigger] listed_upto(files@, i as int)[k],
            decreases MAX_FILES - i,
        {
            if files[i].active {
                v.push(i);
            }
            i = i + 1;
        }
        v
    }

    /// Redraws the listing: the title in cyan, a line per active file (see
    /// `listing_upto`) and, when there is none, " (No files)" in red.
    pub fn render(&self, files: &[File; 10], win: &mut Window)
        requires
            folders_shown(files@),
            old(win).wf(),
        ensures
            final(win).wf(),
            final(win).same_frame(*old(win)),
            ({
                let t1 = printed_all(Term { cx: 0, cy: 0, cells: blank_cells() }, t_carapace_header(), 0x0B);
                let t2 = listing_upto(t1, files@, self.sel as int, 10);
                final(win).term() == if listed(files@).len() == 0 { printed_all(t2, t_no_files(), 0x04) } else { t2 }
            }),
    {
        win.win_clear();
        win.win_print_str(&carapace_header(), 0x0B);
        let ghost t1 = win.term();
        let mut count: usize = 0;
        let mut i: usize = 0;
        while i < MAX_FILES
            invariant
                i <= MAX_FILES,
                folders_shown(files@),
                count == listed_upto(files@, i as int).len(),
                win.wf(),
                win.same_frame(*old(win)),
                win.term() == listing_upto(t1, files@, self.sel as int, i as int),
            decreases MAX_FILES - i,
        {
            proof {
                lemma_listed_upto(files@, i as int);
            }
            let f = &files[i];
            if f.active {
                let color: u8 = if count == self.sel { 0x1F } else { 0x07 };
                win.win_print_str(&fld_open(), color);
                let ghost before = win.term();
                win.win_print_char(f.folder_id + 0x30, color);
                proof {
                    crate::screen::lemma_printed_one(before, (f.folder_id + 0x30) as u8, color);
                }
                win.win_print_str(&fld_close(), color);
                let n = f.name_len();
                let mut name: Vec<u8> = Vec::new();
                let mut k: usize = 0;
                while k < n
                    invariant
                        k <= n <= 16,
                        name@ == f.name@.take(k as int),
                    decreases n - k,
                {
                    name.push(f.name[k]);
                    assert(name@ =~= f.name@.take(k + 1));
                    k = k + 1;
                }
                win.win_print_str(name.as_slice(), color);
                win.win_print_str(&newline(), 0x07);
                count = count + 1;
            }
            i = i + 1;
        }
        if count == 0 {
            win.win_print_str(&no_files(), 0x04);
        }
    }
}

/// Whether the name holds ".claw" from one of its first eleven bytes.
pub fn text_file(name: &[u8; 16]) -> (res: bool)
    ensures
        res == is_text_file(name@),
{
    let ext = claw_ext();
    let mut i: usize = 0;
    while i < 11
        invariant
            i <= 11,
            ext@ == t_claw_ext(),
            forall|j: int| 0 <= j < i ==> !claw_at(name@, j),
        decreases 11 - i,
    {
        if name[i] == ext[0] && name[i + 1] == ext[1] && name[i + 2] == ext[2]
            && name[i + 3] == ext[3] && name[i + 4] == ext[4] {
            assert(claw_at(name@, i as int)) by {
                assert(name@.subrange(i as int, i + 5) =~= t_claw_ext());
            }
            return true;
        }
        assert(!claw_at(name@, i as int)) by {
            if name@.subrange(i as int, i + 5) == t_claw_ext() {
                assert(name@.subrange(i as int, i + 5)[0] == name@[i as int]);
                assert(name@.subrange(i as int, i + 5)[1] == name@[i + 1]);
                assert(name@.subrange(i as int, i + 5)[2] == name@[i + 2]);
                assert(name@.subrange(i as int, i + 5)[3] == name@[i + 3]);
                assert(name@.subrange(i as int, i + 5)[4] == name@[i + 4]);
            }
        }
        i = i + 1;
    }
    false
}

impl Explorer {
    /// A key: ESC quits; up and down move the selection within the listing;
    /// M moves the selected file to the next of the `NUM_FOLDERS` folders;
    /// Enter opens it. With no file listed, M and Enter do nothing.
    pub fn key(&mut self, sc: u8, files: &mut [File; 10]) -> (res: ExplorerKey)
        requires
            old(self).fits(old(files)@),
            sc == 0x50 ==> listed(old(files)@).len() > 0,
            sc == 0x32 && listed(old(files)@).len() > 0
                ==> old(files)@[listed(old(files)@)[old(self).sel as int]].folder_id < 0xFF,
        ensures
            final(self).fits(final(files)@),
            listed(final(files)@) == listed(old(files)@),
            ({
                let ls = listed(old(files)@);
                let sel = old(self).sel as int;
                if sc == 0x01 {
                    res == ExplorerKey::Quit && final(self).sel == old(self).sel && final(files)@ == old(files)@
                } else if sc == 0x48 {
                    &&& res == ExplorerKey::Stay
                    &&& final(files)@ == old(files)@
                    &&& final(self).sel == if sel > 0 { sel - 1 } else { sel }
                } else if sc == 0x50 {
                    &&& res == ExplorerKey::Stay
                    &&& final(files)@ == old(files)@
                    &&& final(self).sel == if sel < ls.len() - 1 { sel + 1 } else { sel }
                } else if sc == 0x32 {
                    &&& res == ExplorerKey::Stay
                    &&& final(self).sel == old(self).sel
                    &&& if ls.len() > 0 {
                        let f = old(files)@[ls[sel]];
                        final(files)@ == old(files)@.update(ls[sel],
                            File { folder_id: next_folder(f.folder_id), ..f })
                    } else {
                        final(files)@ == old(files)@
                    }
                } else if sc == 0x1C {
                    &&& final(self).sel == old(self).sel
                    &&& final(files)@ == old(files)@
                    &&& res == if ls.len() > 0 {
                        ExplorerKey::Open(ls[sel] as usize, is_text_file(old(files)@[ls[sel]].name@))
                    } else {
                        ExplorerKey::Stay
                    }
                } else {
                    res == ExplorerKey::Stay && final(self).sel == old(self).sel && final(files)@ == old(files)@
                }
            }),
    {
        let ls = Explorer::list(files);
        proof {
            lemma_listed_upto(files@, 10);
        }
        let count = ls.len();
        if sc == 0x01 {
            return ExplorerKey::Quit;
        }
        if sc == 0x48 {
            if self.sel > 0 {
                self.sel = self.sel - 1;
            }
            return ExplorerKey::Stay;
        }
        if sc == 0x50 {
            if self.sel < count - 1 {
                self.sel = self.sel + 1;
            }
            return ExplorerKey::Stay;
        }
        if sc == 0x32 {
            if count > 0 {
                let idx = ls[self.sel];
                let f = files[idx];
                let ghost before = files@;
                files[idx] = File { folder_id: (f.folder_id + 1) % NUM_FOLDERS, ..f };
                proof {
                    assert forall|n: int| 0 <= n <= 10 implies listed_upto(files@, n) == listed_upto(before, n) by {
                        lemma_listed_same(before, files@, n);
                    }
                }
            }
            return ExplorerKey::Stay;
        }
        if sc == 0x1C {
            if count > 0 {
                let idx = ls[self.sel];
                assert(listed(files@) == listed_upto(files@, 10));
                assert(idx == listed_upto(files@, 10)[self.sel as int]);
                let t = text_file(&files[idx].name);
                return ExplorerKey::Open(idx, t);
            }
            return ExplorerKey::Stay;
        }
        ExplorerKey::Stay
    }

    /// Shows a text file on a cleared window: a cyan title, then the content
    /// up to its first zero byte in white.
    pub fn show_text(f: &File, win: &mut Window)
        requires
            old(win).wf(),
        ensures
            final(win).wf(),
            final(win).same_frame(*old(win)),
            final(win).term() == printed_all(
                printed_all(Term { cx: 0, cy: 0, cells: blank_cells() }, t_viewing(), 0x0B),
                text_of(f.content@), 0x0F),
    {
        win.win_clear();
        win.win_print_str(&viewing(), 0x0B);
        let mut n: usize = 0;
        while n < 512 && f.content[n] != 0
            invariant
                n <= 512,
                forall|j: int| 0 <= j < n ==> f.content@[j] != 0,
            decreases 512 - n,
        {
            n = n + 1;
        }
        proof {
            lemma_text_len_is(f.content@, n as int);
        }
        let mut v: Vec<u8> = Vec::new();
        let mut k: usize = 0;
        while k < n
            invariant
                k <= n <= 512,
                v@ == f.content@.take(k as int),
            decreases n - k,
        {
            v.push(f.content[k]);
            assert(v@ =~= f.content@.take(k + 1));
            k = k + 1;
        }
        win.win_print_str(v.as_slice(), 0x0F);
    }

    /// Starts a run of a script file: its whole content, for its folder,
    /// on a cleared window.
    pub fn run_file(f: &File, win: &mut Window) -> (res: Script)
        requires
            old(win).wf(),
        ensures
            res.wf(),
            res.folder == f.folder_id,
            res@ == seq![crate::script::FrameV { code: f.content@, pos: 0, looping: None }],
            final(win).wf(),
            final(win).same_frame(*old(win)),
            final(win).term() == (Term { cx: 0, cy: 0, cells: blank_cells() }),
    {
        win.win_clear();
        Script::new(&f.content, f.folder_id)
    }

    /// Ends a shown or run file: "[Press ESC to return]" in dark grey, after
    /// a blank line.
    pub fn end_open(win: &mut Window)
        requires
            old(win).wf(),
        ensures
            final(win).wf(),
            final(win).same_frame(*old(win)),
            final(win).term() == printed_all(old(win).term(), t_press_esc(), 0x08),
    {
        win.win_print_str(&press_esc(), 0x08);
    }
}

/// Changing a file but not whether it is active keeps the listing.
proof fn lemma_listed_same(a: Seq<File>, b: Seq<File>, n: int)
    requires
        a.len() == b.len(),
        0 <= n <= a.len(),
        forall|i: int| 0 <= i < a.len() ==> (#[trigger] a[i]).active == b[i].active,
    ensures
        listed_upto(a, n) == listed_upto(b, n),
    decreases n,
{
    if n > 0 {
        lemma_listed_same(a, b, n - 1);
    }
}

} // verus!
