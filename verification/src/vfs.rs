//! The in-memory file system: ten file slots, each with a name, a folder and
//! 512 bytes of content.
use vstd::prelude::*;
use crate::search::{first_with, none_with, first_index, lemma_first_index, lemma_first_with_unique};

verus! {

/// Number of file slots.
pub const MAX_FILES: usize = 10;
/// Bytes in a file name.
pub const NAME_LEN: usize = 16;
/// Bytes in a file's content.
pub const CONTENT_LEN: usize = 512;
/// Number of folders that a file can be moved through.
pub const NUM_FOLDERS: u8 = 5;

/// A file slot.
#[derive(Clone, Copy, PartialEq, Eq)]
pub struct File {
    pub name: [u8; 16],
    pub content: [u8; 512],
    pub folder_id: u8,
    pub active: bool,
}

/// Number of bytes before the first zero byte of `s` (all of `s` if none).
pub open spec fn text_len(s: Seq<u8>) -> nat
    decreases s.len(),
{
    if s.len() == 0 {
        0
    } else if s[0] == 0 {
        0
    } else {
        1 + text_len(s.drop_first())
    }
}

/// The bytes of `s` before its first zero byte.
pub open spec fn text_of(s: Seq<u8>) -> Seq<u8> {
    s.take(text_len(s) as int)
}

pub proof fn lemma_text_len_bounds(s: Seq<u8>)
    ensures
        text_len(s) <= s.len(),
        forall|j: int| 0 <= j < text_len(s) ==> s[j] != 0,
        text_len(s) < s.len() ==> s[text_len(s) as int] == 0,
    decreases s.len(),
{
    if s.len() > 0 && s[0] != 0 {
        lemma_text_len_bounds(s.drop_first());
        assert forall|j: int| 0 <= j < text_len(s) implies s[j] != 0 by {
            if j > 0 {
                assert(s[j] == s.drop_first()[j - 1]);
            }
        }
    }
}

/// `n` is the length of the text of `s` when the bytes before `n` are not
/// zero and `n` is the end of `s` or a zero byte.
pub proof fn lemma_text_len_is(s: Seq<u8>, n: int)
    requires
        0 <= n <= s.len(),
        forall|j: int| 0 <= j < n ==> s[j] != 0,
        n == s.len() || s[n] == 0,
    ensures
        text_len(s) == n,
    decreases s.len(),
{
    if s.len() > 0 && n > 0 {
        assert forall|j: int| 0 <= j < n - 1 implies s.drop_first()[j] != 0 by {
            assert(s.drop_first()[j] == s[j + 1]);
        }
        lemma_text_len_is(s.drop_first(), n - 1);
    }
}

impl File {
    /// An unused slot.
    pub fn empty() -> (res: File)
        ensures
            !res.active,
            res.folder_id == 0,
            res.name@ == Seq::new(16, |k: int| 0u8),
            res.content@ == Seq::new(512, |k: int| 0u8),
    {
        let res = File { name: [0u8; 16], content: [0u8; 512], folder_id: 0, active: false };
        assert(res.name@ =~= Seq::new(16, |k: int| 0u8));
        assert(res.content@ =~= Seq::new(512, |k: int| 0u8));
        res
    }

    /// The name of the file: its name bytes up to the first zero.
    pub open spec fn file_name(&self) -> Seq<u8> {
        text_of(self.name@)
    }

    /// Number of bytes of the name before the first zero.
    pub fn name_len(&self) -> (res: usize)
        ensures
            res == text_len(self.name@),
            res <= NAME_LEN,
    {
        let mut n: usize = 0;
        while n < 16 && self.name[n] != 0
            invariant
                n <= 16,
                forall|j: int| 0 <= j < n ==> self.name@[j] != 0,
            decreases 16 - n,
        {
            n = n + 1;
        }
        proof {
            lemma_text_len_is(self.name@, n as int);
        }
        n
    }

    /// Whether the file's name is exactly `s`.
    pub fn name_is(&self, s: &[u8]) -> (res: bool)
        ensures
            res == (self.file_name() == s@),
    {
        let n = self.name_len();
        proof {
            lemma_text_len_bounds(self.name@);
        }
        if n != s.len() {
            assert(self.file_name().len() != s@.len());
            return false;
        }
        let mut i: usize = 0;
        while i < n
            invariant
                i <= n,
                n == s.len(),
                n == text_len(self.name@),
                n <= 16,
                forall|j: int| 0 <= j < i ==> self.name@[j] == s@[j],
            decreases n - i,
        {
            if self.name[i] != s[i] {
                assert(self.file_name()[i as int] != s@[i as int]);
                return false;
            }
            i = i + 1;
        }
        assert(self.file_name() =~= s@);
        true
    }
}

/// The slots of the file system.
pub struct Vfs {
    pub files: [File; 10],
}

/// A slot that `save_to_vfs` may write `name` to: a free one, or one that
/// already holds a file of that name.
pub open spec fn save_slot_fits(f: File, name: Seq<u8>) -> bool {
    !f.active || f.name@ == name
}

/// The slots that `save_to_vfs` may write `name` to.
pub open spec fn fits_name(name: Seq<u8>) -> spec_fn(File) -> bool {
    |f: File| save_slot_fits(f, name)
}

/// `after` is `before` with `content` saved under `name`: written to the
/// first slot that fits, which becomes active and keeps its folder, or
/// nothing changed when no slot fits.
pub open spec fn is_save(before: Seq<File>, after: Seq<File>, name: [u8; 16], content: [u8; 512]) -> bool {
    &&& forall|i: int| #[trigger] first_with(before, fits_name(name@), i)
        ==> after == before.update(i, File { name, content, folder_id: before[i].folder_id, active: true })
    &&& none_with(before, fits_name(name@)) ==> after == before
}

/// The file that a folder listing or a run finds under `fname`.
pub open spec fn in_folder_named(folder: u8, fname: Seq<u8>) -> spec_fn(File) -> bool {
    |f: File| f.active && f.folder_id == folder && f.file_name() == fname
}

impl Vfs {
    /// Ten empty slots.
    pub fn new() -> (res: Vfs)
        ensures
            forall|i: int| 0 <= i < MAX_FILES ==> !(#[trigger] res.files@[i]).active,
            forall|i: int| 0 <= i < MAX_FILES ==> (#[trigger] res.files@[i]).folder_id == 0,
    {
        let e = File::empty();
        Vfs { files: [e, e, e, e, e, e, e, e, e, e] }
    }

    /// Saves `buf` under `name` in the first slot that is free or already
    /// holds that name; the slot keeps its folder. With no such slot nothing
    /// changes (see `is_save`).
    pub fn save_to_vfs(&mut self, name: [u8; 16], buf: &[u8; 512])
        ensures
            is_save(old(self).files@, final(self).files@, name, *buf),
    {
        let mut i: usize = 0;
        while i < MAX_FILES
            invariant
                i <= MAX_FILES,
                self.files@ == old(self).files@,
                forall|j: int| 0 <= j < i ==> !(fits_name(name@))(#[trigger] self.files@[j]),
            decreases MAX_FILES - i,
        {
            let f = self.files[i];
            if !f.active || names_equal(&f.name, &name) {
                let ghost before = self.files@;
                self.files[i] = File { name: name, content: *buf, folder_id: f.folder_id, active: true };
                proof {
                    assert(first_with(before, fits_name(name@), i as int));
                    assert forall|k: int| #[trigger] first_with(before, fits_name(name@), k) implies k == i by {
                        lemma_first_with_unique(before, fits_name(name@), i as int, k);
                    }
                }
                return;
            }
            i = i + 1;
        }
    }

    /// The first active file of `folder` whose name is `fname`.
    pub fn find_in_folder(&self, folder: u8, fname: &[u8]) -> (res: Option<usize>)
        ensures
            match res {
                Some(i) => first_with(self.files@, in_folder_named(folder, fname@), i as int),
                None => none_with(self.files@, in_folder_named(folder, fname@)),
            },
    {
        let mut i: usize = 0;
        while i < MAX_FILES
            invariant
                i <= MAX_FILES,
                forall|j: int| 0 <= j < i ==> !(in_folder_named(folder, fname@))(#[trigger] self.files@[j]),
            decreases MAX_FILES - i,
        {
            let f = &self.files[i];
            if f.active && f.folder_id == folder && f.name_is(fname) {
                return Some(i);
            }
            i = i + 1;
        }
        None
    }
}

/// Whether two names hold the same bytes.
pub fn names_equal(a: &[u8; 16], b: &[u8; 16]) -> (res: bool)
    ensures
        res == (a@ == b@),
{
    let mut i: usize = 0;
    while i < 16
        invariant
            i <= 16,
            forall|j: int| 0 <= j < i ==> a@[j] == b@[j],
        decreases 16 - i,
    {
        if a[i] != b[i] {
            return false;
        }
        i = i + 1;
    }
    assert(a@ =~= b@);
    true
}

/// A save that finds a slot leaves there an active file with that name and
/// content; saving under the same name again rewrites that same file, with
/// the new content, instead of making a second one.
pub proof fn lemma_save_again(
    f0: Seq<File>,
    f1: Seq<File>,
    f2: Seq<File>,
    name: [u8; 16],
    c1: [u8; 512],
    c2: [u8; 512],
)
    requires
        is_save(f0, f1, name, c1),
        is_save(f1, f2, name, c2),
        !none_with(f0, fits_name(name@)),
    ensures
        ({
            let i = first_index(f0, fits_name(name@));
            &&& 0 <= i < f0.len()
            &&& f1[i].active && f1[i].name == name && f1[i].content == c1
            &&& f1[i].folder_id == f0[i].folder_id
            &&& f1 == f0.update(i, f1[i])
            &&& f2 == f1.update(i, File { content: c2, ..f1[i] })
        }),
{
    let p = fits_name(name@);
    let i = first_index(f0, p);
    lemma_first_index(f0, p);
    assert(first_with(f0, p, i));
    assert(f1 == f0.update(i, File { name, content: c1, folder_id: f0[i].folder_id, active: true }));
    assert forall|j: int| 0 <= j < i implies !p(#[trigger] f1[j]) by {
        assert(f1[j] == f0[j]);
    }
    assert(p(f1[i]));
    assert(first_with(f1, p, i));
    assert(File { content: c2, ..f1[i] } == File { name, content: c2, folder_id: f1[i].folder_id, active: true });
}

} // verus!
