//! FerrisScript: the little language that scripts, the IDE and the file
//! runner execute.
//!
//! A program is a byte string of statements separated by blanks:
//! `print ,,text,,`, `print name`, `var [str|u8|i8|bool] name = value`,
//! `add name n`, `sub name n`, `call fn name` and `loop.loop/<line>`.
use vstd::prelude::*;
use crate::screen::{Window, Term, printed, printed_all, lemma_printed_all_concat, lemma_printed_one};
use crate::vfs::{File, text_of, text_len, lemma_text_len_is, lemma_text_len_bounds};
use crate::search::{first_with, none_with, first_index, lemma_first_index, lemma_first_index_is};

verus! {

// ----------------------------------------------------------------------
// Scanning
// ----------------------------------------------------------------------

/// Classes of bytes that the scanner skips over.
#[derive(Clone, Copy)]
pub enum Class {
    /// Space, newline, carriage return, tab.
    Blank,
    /// Space.
    Space,
    /// Any byte above the space.
    Graphic,
    /// Anything but a space or `=`.
    NameByte,
    /// Space or `=`.
    SpaceOrEq,
    /// `0` to `9`.
    Digit,
    /// Anything but a space.
    NotSpace,
    /// Anything but a newline, a carriage return or a zero byte.
    LineByte,
}

pub open spec fn in_class(k: Class, b: u8) -> bool {
    match k {
        Class::Blank => b == 0x20 || b == 0x0a || b == 0x0d || b == 0x09,
        Class::Space => b == 0x20,
        Class::Graphic => b > 0x20,
        Class::NameByte => b != 0x20 && b != 0x3d,
        Class::SpaceOrEq => b == 0x20 || b == 0x3d,
        Class::Digit => 0x30 <= b <= 0x39,
        Class::NotSpace => b != 0x20,
        Class::LineByte => b != 0x0a && b != 0x0d && b != 0,
    }
}

fn class_has(k: Class, b: u8) -> (res: bool)
    ensures
        res == in_class(k, b),
{
    match k {
        Class::Blank => b == 0x20 || b == 0x0a || b == 0x0d || b == 0x09,
        Class::Space => b == 0x20,
        Class::Graphic => b > 0x20,
        Class::NameByte => b != 0x20 && b != 0x3d,
        Class::SpaceOrEq => b == 0x20 || b == 0x3d,
        Class::Digit => 0x30 <= b && b <= 0x39,
        Class::NotSpace => b != 0x20,
        Class::LineByte => b != 0x0a && b != 0x0d && b != 0,
    }
}

/// The first position at or after `i` whose byte is not in class `k`, or
/// `i` itself when `i` is at or past the end.
pub open spec fn skip(c: Seq<u8>, i: int, k: Class) -> int
    decreases c.len() - i,
{
    if 0 <= i < c.len() && in_class(k, c[i]) {
        skip(c, i + 1, k)
    } else {
        i
    }
}

pub proof fn lemma_skip(c: Seq<u8>, i: int, k: Class)
    requires
        0 <= i,
    ensures
        i <= skip(c, i, k),
        i <= c.len() ==> skip(c, i, k) <= c.len(),
        i >= c.len() ==> skip(c, i, k) == i,
        forall|j: int| i <= j < skip(c, i, k) ==> in_class(k, #[trigger] c[j]),
        skip(c, i, k) < c.len() ==> !in_class(k, c[skip(c, i, k)]),
    decreases c.len() - i,
{
    if 0 <= i < c.len() && in_class(k, c[i]) {
        lemma_skip(c, i + 1, k);
    }
}

/// Skips the bytes of class `k` from `i` on.
pub fn skip_class(code: &[u8], i: usize, k: Class) -> (res: usize)
    ensures
        res == skip(code@, i as int, k),
{
    let mut j = i;
    while j < code.len() && class_has(k, code[j])
        invariant
            i <= j,
            skip(code@, j as int, k) == skip(code@, i as int, k),
        decreases code.len() - j,
    {
        j = j + 1;
    }
    j
}

/// A `,,` pair starts at `i`.
pub open spec fn pair_at(c: Seq<u8>, i: int) -> bool {
    0 <= i && i + 2 <= c.len() && c[i] == 0x2c && c[i + 1] == 0x2c
}

/// The start of the first `,,` pair at or after `i`; when there is none, the
/// first position from which fewer than two bytes are left.
pub open spec fn until_pair(c: Seq<u8>, i: int) -> int
    decreases c.len() - i,
{
    if 0 <= i && i + 2 <= c.len() && !pair_at(c, i) {
        until_pair(c, i + 1)
    } else {
        i
    }
}

pub proof fn lemma_until_pair(c: Seq<u8>, i: int)
    requires
        0 <= i,
    ensures
        i <= until_pair(c, i),
        i <= c.len() ==> until_pair(c, i) <= c.len(),
        i > c.len() ==> until_pair(c, i) == i,
    decreases c.len() - i,
{
    if 0 <= i && i + 2 <= c.len() && !pair_at(c, i) {
        lemma_until_pair(c, i + 1);
    }
}

/// Finds the `,,` that closes a text that starts at `i`.
pub fn find_pair(code: &[u8], i: usize) -> (res: usize)
    ensures
        res == until_pair(code@, i as int),
{
    let mut j = i;
    while j <= code.len() && code.len() - j >= 2 && !(code[j] == 0x2c && code[j + 1] == 0x2c)
        invariant
            i <= j,
            until_pair(code@, j as int) == until_pair(code@, i as int),
        decreases code.len() - j,
    {
        j = j + 1;
    }
    j
}

/// `kw` stands at `i` and at least `need` bytes are left from `i`.
pub open spec fn kw_at(c: Seq<u8>, i: int, kw: Seq<u8>, need: int) -> bool {
    &&& 0 <= i
    &&& i + need <= c.len()
    &&& kw.len() <= need
    &&& c.subrange(i, i + kw.len()) == kw
}

/// Whether `kw` stands at `i` with at least `need` bytes left from `i`.
pub fn match_kw(code: &[u8], i: usize, kw: &[u8], need: usize) -> (res: bool)
    requires
        kw.len() <= need,
    ensures
        res == kw_at(code@, i as int, kw@, need as int),
{
    if i > code.len() || code.len() - i < need {
        return false;
    }
    let mut j: usize = 0;
    while j < kw.len()
        invariant
            j <= kw.len(),
            kw.len() <= need,
            i + need <= code.len(),
            forall|t: int| 0 <= t < j ==> code@[i + t] == kw@[t],
        decreases kw.len() - j,
    {
        if code[i + j] != kw[j] {
            assert(code@.subrange(i as int, i + kw.len())[j as int] != kw@[j as int]);
            return false;
        }
        j = j + 1;
    }
    assert(code@.subrange(i as int, i + kw.len()) =~= kw@);
    true
}

// ----------------------------------------------------------------------
// Numbers
// ----------------------------------------------------------------------

/// The value of a string of decimal digits.
pub open spec fn dec_value(s: Seq<u8>) -> nat
    decreases s.len(),
{
    if s.len() == 0 {
        0
    } else {
        dec_value(s.drop_last()) * 10 + (s.last() - 0x30) as nat
    }
}

pub proof fn lemma_dec_value_prefix(s: Seq<u8>, n: int)
    requires
        0 <= n <= s.len(),
        forall|j: int| 0 <= j < s.len() ==> 0x30 <= #[trigger] s[j] <= 0x39,
    ensures
        dec_value(s.take(n)) <= dec_value(s),
    decreases s.len() - n,
{
    if n < s.len() {
        lemma_dec_value_prefix(s, n + 1);
        assert(s.take(n + 1).drop_last() =~= s.take(n));
    } else {
        assert(s.take(n) =~= s);
    }
}

/// Reads the digits from `i` on: where they end, and their value when it
/// does not exceed `max`.
pub fn read_number(code: &[u8], i: usize, max: u16) -> (res: (usize, Option<u16>))
    requires
        i <= code.len(),
    ensures
        res.0 == skip(code@, i as int, Class::Digit),
        match res.1 {
            Some(v) => v == dec_value(code@.subrange(i as int, res.0 as int)) && v <= max,
            None => dec_value(code@.subrange(i as int, res.0 as int)) > max,
        },
{
    let end = skip_class(code, i, Class::Digit);
    proof {
        lemma_skip(code@, i as int, Class::Digit);
    }
    let ghost digits = code@.subrange(i as int, end as int);
    let mut j = i;
    let mut val: u16 = 0;
    while j < end
        invariant
            i <= j <= end,
            end <= code.len(),
            end == skip(code@, i as int, Class::Digit),
            i <= end,
            forall|t: int| i <= t < end ==> in_class(Class::Digit, #[trigger] code@[t]),
            digits == code@.subrange(i as int, end as int),
            val == dec_value(code@.subrange(i as int, j as int)),
            val <= max,
        decreases end - j,
    {
        assert(in_class(Class::Digit, code@[j as int]));
        let d = (code[j] - 0x30) as u16;
        assert(code@.subrange(i as int, j + 1).drop_last() =~= code@.subrange(i as int, j as int));
        let nv: u32 = (val as u32) * 10 + d as u32;
        if nv > max as u32 {
            proof {
                assert(forall|t: int| 0 <= t < digits.len() ==> 0x30 <= #[trigger] digits[t] <= 0x39) by {
                    assert forall|t: int| 0 <= t < digits.len() implies 0x30 <= #[trigger] digits[t] <= 0x39 by {
                        assert(digits[t] == code@[i + t]);
                    }
                }
                lemma_dec_value_prefix(digits, j + 1 - i);
                assert(digits.take(j + 1 - i) =~= code@.subrange(i as int, j + 1));
            }
            return (end, None);
        }
        val = nv as u16;
        j = j + 1;
    }
    (end, Some(val))
}

/// The decimal digits of `n`, most significant first, without leading zeros.
pub open spec fn dec_digits(n: nat) -> Seq<u8>
    decreases n,
{
    if n < 10 {
        seq![(0x30 + n) as u8]
    } else {
        dec_digits(n / 10).push((0x30 + n % 10) as u8)
    }
}

/// Reading back the digits of a number gives the number.
pub proof fn lemma_dec_round_trip(n: nat)
    ensures
        dec_value(dec_digits(n)) == n,
        dec_digits(n).len() >= 1,
        forall|j: int| 0 <= j < dec_digits(n).len() ==> 0x30 <= #[trigger] dec_digits(n)[j] <= 0x39,
    decreases n,
{
    let d = dec_digits(n);
    if n < 10 {
        assert(d.drop_last() =~= Seq::<u8>::empty());
        assert(dec_value(d.drop_last()) == 0);
        assert(d.last() == (0x30 + n) as u8);
        assert(dec_value(d) == dec_value(d.drop_last()) * 10 + (d.last() - 0x30) as nat);
    } else {
        lemma_dec_round_trip(n / 10);
        assert(d.drop_last() =~= dec_digits(n / 10));
        assert(n == (n / 10) * 10 + n % 10) by (nonlinear_arith);
        assert(d.last() == (0x30 + n % 10) as u8);
        assert(dec_value(d) == dec_value(d.drop_last()) * 10 + (d.last() - 0x30) as nat);
        assert(dec_value(d) == (n / 10) * 10 + n % 10);
    }
}

/// Ten to the power `k`.
pub open spec fn ten_pow(k: nat) -> nat
    decreases k,
{
    if k == 0 { 1 } else { 10 * ten_pow((k - 1) as nat) }
}

/// A number below ten to the `k` has at most `k` digits.
pub proof fn lemma_dec_digits_len(n: nat, k: nat)
    requires
        k >= 1,
        n < ten_pow(k),
    ensures
        dec_digits(n).len() <= k,
    decreases k,
{
    if n >= 10 {
        if k == 1 {
            assert(ten_pow(1) == 10) by { reveal_with_fuel(ten_pow, 2); }
        } else {
            assert(n / 10 < ten_pow((k - 1) as nat));
            lemma_dec_digits_len(n / 10, (k - 1) as nat);
        }
    }
}

/// The decimal text of `n`.
pub fn dec_text(n: u32) -> (res: Vec<u8>)
    ensures
        res@ == dec_digits(n as nat),
        res.len() <= 10,
    decreases n,
{
    proof {
        assert(ten_pow(10) == 10_000_000_000) by { reveal_with_fuel(ten_pow, 11); }
        lemma_dec_digits_len(n as nat, 10);
    }
    if n < 10 {
        let mut v = Vec::new();
        v.push((0x30 + n) as u8);
        assert(v@ =~= dec_digits(n as nat));
        v
    } else {
        let mut v = dec_text(n / 10);
        v.push((0x30 + n % 10) as u8);
        assert(((n / 10) as nat) == (n as nat) / 10);
        assert(v@ =~= dec_digits((n as nat) / 10).push((0x30 + (n as nat) % 10) as u8));
        v
    }
}

// ----------------------------------------------------------------------
// Variables
// ----------------------------------------------------------------------

/// The type of a variable.
#[derive(Clone, Copy, Debug, PartialEq, Eq)]
pub enum VarType {
    Str,
    U8,
    I8,
    Bool,
}

/// The value of a boolean variable: FerrisScript has three.
#[derive(Clone, Copy, Debug, PartialEq, Eq)]
pub enum TriBool {
    False,
    True,
    Maybe,
}

/// A variable slot.
#[derive(Clone, Copy)]
pub struct Variable {
    pub name: [u8; 16],
    pub v_type: VarType,
    pub s_val: [u8; 32],
    pub u_val: u8,
    pub i_val: i8,
    pub b_val: TriBool,
    pub active: bool,
}

/// Number of variable slots.
pub const NUM_VARS: usize = 32;

/// The variable slots, shared by every program that runs.
pub struct Vars {
    pub slots: [Variable; 32],
}

/// What a variable slot holds.
pub struct VarV {
    pub name: Seq<u8>,
    pub v_type: VarType,
    pub s_val: Seq<u8>,
    pub u_val: u8,
    pub i_val: i8,
    pub b_val: TriBool,
    pub active: bool,
}

impl View for Variable {
    type V = VarV;

    open spec fn view(&self) -> VarV {
        VarV {
            name: self.name@,
            v_type: self.v_type,
            s_val: self.s_val@,
            u_val: self.u_val,
            i_val: self.i_val,
            b_val: self.b_val,
            active: self.active,
        }
    }
}

/// What the slots hold.
pub open spec fn vars_view(slots: Seq<Variable>) -> Seq<VarV> {
    slots.map_values(|v: Variable| v@)
}

impl Vars {
    pub open spec fn view(&self) -> Seq<VarV> {
        vars_view(self.slots@)
    }
}

/// The variable is called `name`.
pub open spec fn named(v: VarV, name: Seq<u8>) -> bool {
    text_of(v.name) == name
}

/// The variable that `print`, `add` and `sub` find under `name`.
pub open spec fn live_named(name: Seq<u8>) -> spec_fn(VarV) -> bool {
    |v: VarV| v.active && named(v, name)
}

/// The slot that `var` fills for `name`: a free one, or a live one of that
/// name.
pub open spec fn decl_fits(name: Seq<u8>) -> spec_fn(VarV) -> bool {
    |v: VarV| !v.active || named(v, name)
}

/// `s` cut or padded with zeros to `n` bytes.
pub open spec fn padded(s: Seq<u8>, n: nat) -> Seq<u8> {
    Seq::new(n, |k: int| if k < s.len() { s[k] } else { 0u8 })
}

/// The text that `print` shows of a variable; `None` where showing it
/// overflows (an `i8` of -128, after its sign has been printed).
pub open spec fn shown(v: VarV) -> Option<Seq<u8>> {
    match v.v_type {
        VarType::Str => Some(text_of(v.s_val)),
        VarType::U8 => Some(dec_digits(v.u_val as nat)),
        VarType::I8 => if v.i_val == -128 {
            None
        } else if v.i_val < 0 {
            Some(seq![0x2du8] + dec_digits((-v.i_val) as nat))
        } else {
            Some(dec_digits(v.i_val as nat))
        },
        VarType::Bool => match v.b_val {
            TriBool::True => Some(kw_true()),
            TriBool::False => Some(kw_false()),
            TriBool::Maybe => Some(kw_maybe()),
        },
    }
}

/// A boolean variable prints as the word of its value: "true", "false" or
/// "maybe", three different words.
pub proof fn lemma_bool_shown(v: VarV)
    requires
        v.v_type == VarType::Bool,
    ensures
        v.b_val == TriBool::True ==> shown(v) == Some(seq![0x74u8, 0x72, 0x75, 0x65]),
        v.b_val == TriBool::False ==> shown(v) == Some(seq![0x66u8, 0x61, 0x6c, 0x73, 0x65]),
        v.b_val == TriBool::Maybe ==> shown(v) == Some(seq![0x6du8, 0x61, 0x79, 0x62, 0x65]),
{
    assert(kw_true() =~= seq![0x74u8, 0x72, 0x75, 0x65]);
    assert(kw_false() =~= seq![0x66u8, 0x61, 0x6c, 0x73, 0x65]);
    assert(kw_maybe() =~= seq![0x6du8, 0x61, 0x79, 0x62, 0x65]);
}

/// Two boolean variables with different values print differently.
pub proof fn lemma_bool_shown_apart(v: VarV, w: VarV)
    requires
        v.v_type == VarType::Bool,
        w.v_type == VarType::Bool,
        v.b_val != w.b_val,
    ensures
        shown(v) != shown(w),
{
    lemma_bool_shown(v);
    lemma_bool_shown(w);
    let t = seq![0x74u8, 0x72, 0x75, 0x65];
    let f = seq![0x66u8, 0x61, 0x6c, 0x73, 0x65];
    let m = seq![0x6du8, 0x61, 0x79, 0x62, 0x65];
    assert(t.len() != f.len() && t.len() != m.len());
    assert(f[0] != m[0]);
}

pub open spec fn kw_true() -> Seq<u8> {
    seq![0x74u8, 0x72, 0x75, 0x65]
}

pub open spec fn kw_false() -> Seq<u8> {
    seq![0x66u8, 0x61, 0x6c, 0x73, 0x65]
}

pub open spec fn kw_maybe() -> Seq<u8> {
    seq![0x6du8, 0x61, 0x79, 0x62, 0x65]
}

/// Number of bytes before the first zero of `s`.
fn zero_len(s: &[u8]) -> (res: usize)
    ensures
        res == text_len(s@),
{
    let mut n: usize = 0;
    while n < s.len() && s[n] != 0
        invariant
            n <= s.len(),
            forall|j: int| 0 <= j < n ==> s@[j] != 0,
        decreases s.len() - n,
    {
        n = n + 1;
    }
    proof {
        lemma_text_len_is(s@, n as int);
    }
    n
}

/// Whether the text of `stored` (up to its first zero) is `name`.
fn text_is(stored: &[u8], name: &[u8]) -> (res: bool)
    ensures
        res == (text_of(stored@) == name@),
{
    let n = zero_len(stored);
    proof {
        lemma_text_len_bounds(stored@);
    }
    if n != name.len() {
        assert(text_of(stored@).len() != name@.len());
        return false;
    }
    let mut i: usize = 0;
    while i < n
        invariant
            i <= n,
            n == name.len(),
            n == text_len(stored@),
            n <= stored.len(),
            forall|j: int| 0 <= j < i ==> stored@[j] == name@[j],
        decreases n - i,
    {
        if stored[i] != name[i] {
            assert(text_of(stored@)[i as int] != name@[i as int]);
            return false;
        }
        i = i + 1;
    }
    assert(text_of(stored@) =~= name@);
    true
}

/// Prints every byte of `s`.
fn print_bytes(win: &mut Window, s: &[u8], color: u8)
    requires
        old(win).wf(),
    ensures
        final(win).wf(),
        final(win).same_frame(*old(win)),
        final(win).term() == printed_all(old(win).term(), s@, color),
{
    win.win_print_str(s, color);
}

impl Vars {
    /// Thirty-two free slots.
    pub fn new() -> (res: Vars)
        ensures
            forall|i: int| 0 <= i < NUM_VARS ==> !(#[trigger] res.slots@[i]).active,
    {
        let v = Variable {
            name: [0u8; 16],
            v_type: VarType::U8,
            s_val: [0u8; 32],
            u_val: 0,
            i_val: 0,
            b_val: TriBool::False,
            active: false,
        };
        Vars { slots: [v, v, v, v, v, v, v, v, v, v, v, v, v, v, v, v,
                       v, v, v, v, v, v, v, v, v, v, v, v, v, v, v, v] }
    }

    /// The first live variable called `name`.
    pub fn find_live(&self, name: &[u8]) -> (res: Option<usize>)
        ensures
            match res {
                Some(s) => first_with(self@, live_named(name@), s as int),
                None => none_with(self@, live_named(name@)),
            },
            res is Some <==> first_index(self@, live_named(name@)) < NUM_VARS,
            res matches Some(s) ==> s == first_index(self@, live_named(name@)),
    {
        proof {
            lemma_first_index(self@, live_named(name@));
        }
        let mut s: usize = 0;
        while s < NUM_VARS
            invariant
                s <= NUM_VARS,
                forall|j: int| 0 <= j < s ==> !(live_named(name@))(#[trigger] self@[j]),
            decreases NUM_VARS - s,
        {
            let v = &self.slots[s];
            if v.active && text_is(&v.name, name) {
                proof {
                    lemma_first_index_is(self@, live_named(name@), s as int);
                }
                return Some(s);
            }
            s = s + 1;
        }
        None
    }

    /// The slot that declaring `name` fills.
    pub fn find_decl(&self, name: &[u8]) -> (res: Option<usize>)
        ensures
            res is Some <==> first_index(self@, decl_fits(name@)) < NUM_VARS,
            res matches Some(s) ==> s == first_index(self@, decl_fits(name@)),
    {
        proof {
            lemma_first_index(self@, decl_fits(name@));
        }
        let mut s: usize = 0;
        while s < NUM_VARS
            invariant
                s <= NUM_VARS,
                forall|j: int| 0 <= j < s ==> !(decl_fits(name@))(#[trigger] self@[j]),
            decreases NUM_VARS - s,
        {
            let v = &self.slots[s];
            if !v.active || text_is(&v.name, name) {
                proof {
                    lemma_first_index_is(self@, decl_fits(name@), s as int);
                }
                return Some(s);
            }
            s = s + 1;
        }
        None
    }
}

/// Prints what `print` shows of `v`; false where showing it overflows, after
/// the sign has been printed.
pub fn show_value(v: &Variable, win: &mut Window) -> (ok: bool)
    requires
        old(win).wf(),
    ensures
        final(win).wf(),
        final(win).same_frame(*old(win)),
        ok == (shown(v@) is Some),
        match shown(v@) {
            Some(t) => final(win).term() == printed_all(old(win).term(), t, 0x0F),
            None => final(win).term() == printed_all(old(win).term(), seq![0x2du8], 0x0F),
        },
{
    match v.v_type {
        VarType::Str => {
            let n = zero_len(&v.s_val);
            proof {
                lemma_text_len_bounds(v.s_val@);
                assert(v.s_val@.take(0) =~= Seq::<u8>::empty());
            }
            let mut k: usize = 0;
            while k < n
                invariant
                    k <= n,
                    n == text_len(v.s_val@),
                    n <= 32,
                    win.wf(),
                    win.same_frame(*old(win)),
                    win.term() == printed_all(old(win).term(), v.s_val@.take(k as int), 0x0F),
                decreases n - k,
            {
                win.win_print_char(v.s_val[k], 0x0F);
                assert(v.s_val@.take(k + 1).drop_last() =~= v.s_val@.take(k as int));
                k = k + 1;
            }
            assert(v.s_val@.take(n as int) =~= text_of(v.s_val@));
            true
        },
        VarType::U8 => {
            let t = dec_text(v.u_val as u32);
            print_bytes(win, t.as_slice(), 0x0F);
            true
        },
        VarType::I8 => {
            if v.i_val == -128 {
                win.win_print_char(0x2d, 0x0F);
                proof {
                    lemma_printed_one(old(win).term(), 0x2d, 0x0F);
                }
                return false;
            }
            if v.i_val < 0 {
                win.win_print_char(0x2d, 0x0F);
                let ghost mid = win.term();
                let t = dec_text((-v.i_val) as u32);
                print_bytes(win, t.as_slice(), 0x0F);
                proof {
                    lemma_printed_all_concat(old(win).term(), seq![0x2du8], t@, 0x0F);
                    lemma_printed_one(old(win).term(), 0x2d, 0x0F);
                }
            } else {
                let t = dec_text(v.i_val as u32);
                print_bytes(win, t.as_slice(), 0x0F);
            }
            true
        },
        VarType::Bool => {
            match v.b_val {
                TriBool::True => {
                    let t: [u8; 4] = [0x74, 0x72, 0x75, 0x65];
                    print_bytes(win, &t, 0x0F);
                    assert(t@ =~= kw_true());
                },
                TriBool::False => {
                    let t: [u8; 5] = [0x66, 0x61, 0x6c, 0x73, 0x65];
                    print_bytes(win, &t, 0x0F);
                    assert(t@ =~= kw_false());
                },
                TriBool::Maybe => {
                    let t: [u8; 5] = [0x6d, 0x61, 0x79, 0x62, 0x65];
                    print_bytes(win, &t, 0x0F);
                    assert(t@ =~= kw_maybe());
                },
            }
            true
        },
    }
}

// ----------------------------------------------------------------------
// Statements
// ----------------------------------------------------------------------

pub open spec fn kw_print() -> Seq<u8> {
    seq![0x70u8, 0x72, 0x69, 0x6e, 0x74]
}

pub open spec fn kw_var() -> Seq<u8> {
    seq![0x76u8, 0x61, 0x72]
}

pub open spec fn kw_str() -> Seq<u8> {
    seq![0x73u8, 0x74, 0x72]
}

pub open spec fn kw_u8() -> Seq<u8> {
    seq![0x75u8, 0x38]
}

pub open spec fn kw_i8() -> Seq<u8> {
    seq![0x69u8, 0x38]
}

pub open spec fn kw_bool() -> Seq<u8> {
    seq![0x62u8, 0x6f, 0x6f, 0x6c]
}

pub open spec fn kw_add() -> Seq<u8> {
    seq![0x61u8, 0x64, 0x64]
}

pub open spec fn kw_sub() -> Seq<u8> {
    seq![0x73u8, 0x75, 0x62]
}

pub open spec fn kw_call() -> Seq<u8> {
    seq![0x63u8, 0x61, 0x6c, 0x6c, 0x20, 0x66, 0x6e]
}

pub open spec fn kw_loop() -> Seq<u8> {
    seq![0x6cu8, 0x6f, 0x6f, 0x70, 0x2e, 0x6c, 0x6f, 0x6f, 0x70, 0x2f]
}

/// What a statement asks for once it has run.
pub enum Next {
    /// Go on with the next statement.
    Go,
    /// Run the function of that name.
    Call(Seq<u8>),
    /// Repeat this body until ESC is pressed.
    Loop(Seq<u8>),
    /// An arithmetic overflow or a slice out of range stopped the machine.
    Crash,
}

/// What a statement does: where the program goes on, what it prints, the
/// variables after it and what comes next.
pub struct Effect {
    pub pos: int,
    pub out: Seq<u8>,
    pub vars: Seq<VarV>,
    pub next: Next,
}

/// `print` at `i`.
pub open spec fn print_effect(c: Seq<u8>, i: int, vars: Seq<VarV>) -> Effect {
    let j = skip(c, i + 5, Class::Space);
    if pair_at(c, j) {
        let e = until_pair(c, j + 2);
        Effect { pos: e + 2, out: c.subrange(j + 2, e).push(0x0a), vars, next: Next::Go }
    } else {
        let e = skip(c, j, Class::Graphic);
        let name = c.subrange(j, e);
        let s = first_index(vars, live_named(name));
        if s < vars.len() {
            match shown(vars[s]) {
                Some(t) => Effect { pos: e, out: t.push(0x0a), vars, next: Next::Go },
                None => Effect { pos: e, out: seq![0x2du8], vars, next: Next::Crash },
            }
        } else {
            Effect { pos: e, out: name.push(0x0a), vars, next: Next::Go }
        }
    }
}

/// The type a `var` declares at `k`, and where its name starts.
pub open spec fn decl_type(c: Seq<u8>, k: int) -> (VarType, int) {
    if kw_at(c, k, kw_str(), 3) {
        (VarType::Str, k + 4)
    } else if kw_at(c, k, kw_u8(), 2) {
        (VarType::U8, k + 3)
    } else if kw_at(c, k, kw_i8(), 2) {
        (VarType::I8, k + 3)
    } else if kw_at(c, k, kw_bool(), 4) {
        (VarType::Bool, k + 5)
    } else {
        (VarType::U8, k)
    }
}

/// An `i8` literal clamped to the range of `i8`.
pub open spec fn clamp_i8(v: int) -> i8 {
    if v < -128 {
        -128i8
    } else if v > 127 {
        127i8
    } else {
        v as i8
    }
}

/// `x` wrapped into `u8`.
pub open spec fn wrap_u8(x: int) -> u8 {
    (x % 256) as u8
}

/// `x` wrapped into `i8`.
pub open spec fn wrap_i8(x: int) -> i8 {
    if x % 256 >= 128 {
        (x % 256 - 256) as i8
    } else {
        (x % 256) as i8
    }
}

/// Where a signed literal at `v` starts its digits.
pub open spec fn digits_start(c: Seq<u8>, v: int) -> int {
    if 0 <= v < c.len() && c[v] == 0x2d {
        v + 1
    } else {
        v
    }
}

/// The value given to a declared variable `base` of type `ty`, read at `v`:
/// the variable, where reading ended and whether it overflowed.
pub open spec fn decl_value(c: Seq<u8>, v: int, ty: VarType, base: VarV) -> (VarV, int, bool) {
    match ty {
        VarType::Str => if pair_at(c, v) {
            let e = until_pair(c, v + 2);
            (VarV { s_val: padded(c.subrange(v + 2, e), 32), ..base }, e + 2, false)
        } else {
            (base, v, false)
        },
        VarType::U8 => {
            let d = skip(c, v, Class::Digit);
            let val = dec_value(c.subrange(v, d));
            if val > 65535 {
                (base, d, true)
            } else {
                (VarV { u_val: (val % 256) as u8, ..base }, d, false)
            }
        },
        VarType::I8 => {
            let st = digits_start(c, v);
            let d = skip(c, st, Class::Digit);
            let val = dec_value(c.subrange(st, d));
            if val > 32767 {
                (base, d, true)
            } else {
                let fv: int = if st == v + 1 { -val } else { val as int };
                (VarV { i_val: clamp_i8(fv), ..base }, d, false)
            }
        },
        VarType::Bool => if kw_at(c, v, kw_true(), 4) {
            (VarV { b_val: TriBool::True, ..base }, v + 4, false)
        } else if kw_at(c, v, kw_false(), 5) {
            (VarV { b_val: TriBool::False, ..base }, v + 5, false)
        } else if kw_at(c, v, kw_maybe(), 5) {
            (VarV { b_val: TriBool::Maybe, ..base }, v + 5, false)
        } else {
            (base, v, false)
        },
    }
}

/// `var` at `i`.
pub open spec fn var_effect(c: Seq<u8>, i: int, vars: Seq<VarV>) -> Effect {
    let (ty, k2) = decl_type(c, i + 4);
    if k2 > c.len() {
        Effect { pos: k2, out: Seq::empty(), vars, next: Next::Crash }
    } else {
        let e = skip(c, k2, Class::NameByte);
        let name = c.subrange(k2, e);
        let v = skip(c, e, Class::SpaceOrEq);
        let s = first_index(vars, decl_fits(name));
        if s >= vars.len() {
            Effect { pos: v, out: Seq::empty(), vars, next: Next::Go }
        } else {
            let base = VarV { active: true, v_type: ty, name: padded(name, 16), ..vars[s] };
            let (nv, pos, crashed) = decl_value(c, v, ty, base);
            Effect {
                pos,
                out: Seq::empty(),
                vars: vars.update(s, nv),
                next: if crashed { Next::Crash } else { Next::Go },
            }
        }
    }
}

/// `add` or `sub` at `i`.
pub open spec fn arith_effect(c: Seq<u8>, i: int, vars: Seq<VarV>) -> Effect {
    let is_add = c.subrange(i, i + 3) == kw_add();
    let k = i + 4;
    let e = skip(c, k, Class::NotSpace);
    let name = c.subrange(k, e);
    let v = skip(c, e, Class::Space);
    let st = digits_start(c, v);
    let d = skip(c, st, Class::Digit);
    let val = dec_value(c.subrange(st, d));
    if val > 32767 {
        Effect { pos: d, out: Seq::empty(), vars, next: Next::Crash }
    } else {
        let delta: int = if st == v + 1 { -val } else { val as int };
        let s = first_index(vars, live_named(name));
        let nvars = if s < vars.len() {
            let old = vars[s];
            match old.v_type {
                VarType::U8 => vars.update(s, VarV {
                    u_val: wrap_u8(if is_add { old.u_val + delta } else { old.u_val - delta }),
                    ..old
                }),
                VarType::I8 => vars.update(s, VarV {
                    i_val: wrap_i8(if is_add { old.i_val + delta } else { old.i_val - delta }),
                    ..old
                }),
                _ => vars,
            }
        } else {
            vars
        };
        Effect { pos: d, out: Seq::empty(), vars: nvars, next: Next::Go }
    }
}

/// The statement at `i`, which is not blank.
pub open spec fn stmt(c: Seq<u8>, i: int, vars: Seq<VarV>) -> Effect {
    if kw_at(c, i, kw_print(), 5) {
        print_effect(c, i, vars)
    } else if kw_at(c, i, kw_var(), 4) {
        var_effect(c, i, vars)
    } else if kw_at(c, i, kw_add(), 4) || kw_at(c, i, kw_sub(), 4) {
        arith_effect(c, i, vars)
    } else if kw_at(c, i, kw_call(), 8) {
        let e = skip(c, i + 8, Class::Graphic);
        Effect { pos: e, out: Seq::empty(), vars, next: Next::Call(c.subrange(i + 8, e)) }
    } else if kw_at(c, i, kw_loop(), 10) {
        let e = skip(c, i + 10, Class::LineByte);
        Effect {
            pos: e,
            out: Seq::empty(),
            vars,
            next: Next::Loop(padded(c.subrange(i + 10, e), 512)),
        }
    } else {
        Effect { pos: i + 1, out: Seq::empty(), vars, next: Next::Go }
    }
}

/// A statement moves on: it ends after where it starts, and at most nine
/// bytes past the end of the code.
pub proof fn lemma_stmt_pos(c: Seq<u8>, i: int, vars: Seq<VarV>)
    requires
        0 <= i < c.len(),
    ensures
        i < stmt(c, i, vars).pos <= c.len() + 9,
        stmt(c, i, vars).next matches Next::Loop(b) ==> b.len() == 512,
{
    if kw_at(c, i, kw_print(), 5) {
        lemma_skip(c, i + 5, Class::Space);
        let j = skip(c, i + 5, Class::Space);
        if pair_at(c, j) {
            lemma_until_pair(c, j + 2);
        } else {
            lemma_skip(c, j, Class::Graphic);
        }
    } else if kw_at(c, i, kw_var(), 4) {
        let k2 = decl_type(c, i + 4).1;
        if k2 <= c.len() {
            lemma_skip(c, k2, Class::NameByte);
            let e = skip(c, k2, Class::NameByte);
            lemma_skip(c, e, Class::SpaceOrEq);
            let v = skip(c, e, Class::SpaceOrEq);
            let name = c.subrange(k2, e);
            let s = first_index(vars, decl_fits(name));
            if s < vars.len() {
                let ty = decl_type(c, i + 4).0;
                match ty {
                    VarType::Str => {
                        if pair_at(c, v) {
                            lemma_until_pair(c, v + 2);
                        }
                    },
                    VarType::U8 => {
                        lemma_skip(c, v, Class::Digit);
                    },
                    VarType::I8 => {
                        lemma_skip(c, digits_start(c, v), Class::Digit);
                    },
                    VarType::Bool => {},
                }
            }
        }
    } else if kw_at(c, i, kw_add(), 4) || kw_at(c, i, kw_sub(), 4) {
        lemma_skip(c, i + 4, Class::NotSpace);
        let e = skip(c, i + 4, Class::NotSpace);
        lemma_skip(c, e, Class::Space);
        let v = skip(c, e, Class::Space);
        lemma_skip(c, digits_start(c, v), Class::Digit);
    } else if kw_at(c, i, kw_call(), 8) {
        lemma_skip(c, i + 8, Class::Graphic);
    } else if kw_at(c, i, kw_loop(), 10) {
        lemma_skip(c, i + 10, Class::LineByte);
    }
}

/// What a statement asks for next, as the machine carries it.
pub enum Flow {
    Go,
    Call(Vec<u8>),
    Loop(Vec<u8>),
    Crash,
}

pub open spec fn flow_is(f: Flow, n: Next) -> bool {
    match (f, n) {
        (Flow::Go, Next::Go) => true,
        (Flow::Call(a), Next::Call(b)) => a@ == b,
        (Flow::Loop(a), Next::Loop(b)) => a@ == b,
        (Flow::Crash, Next::Crash) => true,
        _ => false,
    }
}

/// The bytes of `code` from `a` to `b`.
pub fn copy_range(code: &[u8], a: usize, b: usize) -> (res: Vec<u8>)
    requires
        a <= b <= code.len(),
    ensures
        res@ == code@.subrange(a as int, b as int),
{
    let mut v: Vec<u8> = Vec::new();
    let mut k = a;
    while k < b
        invariant
            a <= k <= b,
            b <= code.len(),
            v@ == code@.subrange(a as int, k as int),
        decreases b - k,
    {
        v.push(code[k]);
        assert(v@ =~= code@.subrange(a as int, k + 1));
        k = k + 1;
    }
    v
}

/// The bytes of `code` from `a` to `b`, cut or padded with zeros to `n`.
fn copy_padded(code: &[u8], a: usize, b: usize, n: usize) -> (res: Vec<u8>)
    requires
        a <= b <= code.len(),
    ensures
        res@ == padded(code@.subrange(a as int, b as int), n as nat),
{
    let mut v: Vec<u8> = Vec::new();
    let mut k: usize = 0;
    while k < n
        invariant
            k <= n,
            a <= b <= code.len(),
            v@ == padded(code@.subrange(a as int, b as int), n as nat).take(k as int),
        decreases n - k,
    {
        if k < b - a {
            v.push(code[a + k]);
        } else {
            v.push(0);
        }
        assert(v@ =~= padded(code@.subrange(a as int, b as int), n as nat).take(k + 1));
        k = k + 1;
    }
    assert(v@ =~= padded(code@.subrange(a as int, b as int), n as nat));
    v
}

/// `s` cut or padded with zeros to 16 bytes.
fn pad16(s: &[u8]) -> (res: [u8; 16])
    ensures
        res@ == padded(s@, 16),
{
    let mut r = [0u8; 16];
    let mut k: usize = 0;
    while k < 16
        invariant
            k <= 16,
            forall|j: int| 0 <= j < k ==> r@[j] == padded(s@, 16)[j],
            forall|j: int| k <= j < 16 ==> r@[j] == 0,
        decreases 16 - k,
    {
        if k < s.len() {
            r[k] = s[k];
        }
        k = k + 1;
    }
    assert(r@ =~= padded(s@, 16));
    r
}

/// `s` cut or padded with zeros to 32 bytes.
fn pad32(s: &[u8]) -> (res: [u8; 32])
    ensures
        res@ == padded(s@, 32),
{
    let mut r = [0u8; 32];
    let mut k: usize = 0;
    while k < 32
        invariant
            k <= 32,
            forall|j: int| 0 <= j < k ==> r@[j] == padded(s@, 32)[j],
            forall|j: int| k <= j < 32 ==> r@[j] == 0,
        decreases 32 - k,
    {
        if k < s.len() {
            r[k] = s[k];
        }
        k = k + 1;
    }
    assert(r@ =~= padded(s@, 32));
    r
}

/// Prints the bytes of `code` from `a` to `b`.
fn print_range(win: &mut Window, code: &[u8], a: usize, b: usize, color: u8)
    requires
        old(win).wf(),
        a <= b <= code.len(),
    ensures
        final(win).wf(),
        final(win).same_frame(*old(win)),
        final(win).term() == printed_all(old(win).term(), code@.subrange(a as int, b as int), color),
{
    let mut k = a;
    assert(code@.subrange(a as int, a as int) =~= Seq::<u8>::empty());
    while k < b
        invariant
            a <= k <= b,
            b <= code.len(),
            win.wf(),
            win.same_frame(*old(win)),
            win.term() == printed_all(old(win).term(), code@.subrange(a as int, k as int), color),
        decreases b - k,
    {
        win.win_print_char(code[k], color);
        assert(code@.subrange(a as int, k + 1).drop_last() =~= code@.subrange(a as int, k as int));
        k = k + 1;
    }
}

/// Prints a newline after what has been printed.
proof fn lemma_push_newline(t: Term, s: Seq<u8>)
    ensures
        printed(printed_all(t, s, 0x0F), 0x0a, 0x0F) == printed_all(t, s.push(0x0a), 0x0F),
{
    assert(s.push(0x0a).drop_last() =~= s);
}

/// Runs a `print` statement at `i`.
fn exec_print(code: &[u8], i: usize, vars: &Vars, win: &mut Window) -> (res: (usize, Flow))
    requires
        kw_at(code@, i as int, kw_print(), 5),
        code.len() <= isize::MAX,
        old(win).wf(),
    ensures
        final(win).wf(),
        final(win).same_frame(*old(win)),
        res.0 == print_effect(code@, i as int, vars@).pos,
        flow_is(res.1, print_effect(code@, i as int, vars@).next),
        final(win).term() == printed_all(old(win).term(), print_effect(code@, i as int, vars@).out, 0x0F),
{
    let j = skip_class(code, i + 5, Class::Space);
    proof {
        lemma_skip(code@, i + 5, Class::Space);
    }
    if j <= code.len() && code.len() - j >= 2 && code[j] == 0x2c && code[j + 1] == 0x2c {
        let e = find_pair(code, j + 2);
        proof {
            lemma_until_pair(code@, j + 2);
        }
        print_range(win, code, j + 2, e, 0x0F);
        let ghost mid = win.term();
        win.win_print_char(0x0a, 0x0F);
        proof {
            lemma_push_newline(old(win).term(), code@.subrange(j + 2, e as int));
        }
        (e + 2, Flow::Go)
    } else {
        let e = skip_class(code, j, Class::Graphic);
        proof {
            lemma_skip(code@, j as int, Class::Graphic);
        }
        let name = copy_range(code, j, e);
        match vars.find_live(name.as_slice()) {
            Some(s) => {
                let ok = show_value(&vars.slots[s], win);
                if !ok {
                    return (e, Flow::Crash);
                }
                let ghost t = shown(vars@[s as int])->0;
                win.win_print_char(0x0a, 0x0F);
                proof {
                    lemma_push_newline(old(win).term(), t);
                }
            },
            None => {
                print_bytes(win, name.as_slice(), 0x0F);
                win.win_print_char(0x0a, 0x0F);
                proof {
                    lemma_push_newline(old(win).term(), name@);
                }
            },
        }
        (e, Flow::Go)
    }
}

/// `x` wrapped into `u8`.
fn wrapped_u8(x: i32) -> (res: u8)
    requires
        -33024 <= x <= 33024,
    ensures
        res == wrap_u8(x as int),
{
    let m = ((x + 33024) as u32) % 256;
    assert((x + 33024) % 256 == x % 256) by (nonlinear_arith);
    m as u8
}

/// `x` wrapped into `i8`.
fn wrapped_i8(x: i32) -> (res: i8)
    requires
        -33024 <= x <= 33024,
    ensures
        res == wrap_i8(x as int),
{
    let m = ((x + 33024) as u32) % 256;
    assert((x + 33024) % 256 == x % 256) by (nonlinear_arith);
    if m >= 128 {
        (m as i32 - 256) as i8
    } else {
        m as i8
    }
}

/// Runs a `var` statement at `i`.
fn exec_var(code: &[u8], i: usize, vars: &mut Vars) -> (res: (usize, Flow))
    requires
        kw_at(code@, i as int, kw_var(), 4),
        code.len() <= isize::MAX,
    ensures
        res.0 == var_effect(code@, i as int, old(vars)@).pos,
        flow_is(res.1, var_effect(code@, i as int, old(vars)@).next),
        final(vars)@ == var_effect(code@, i as int, old(vars)@).vars,
{
    let k = i + 4;
    let kstr: [u8; 3] = [0x73, 0x74, 0x72];
    let ku8: [u8; 2] = [0x75, 0x38];
    let ki8: [u8; 2] = [0x69, 0x38];
    let kbool: [u8; 4] = [0x62, 0x6f, 0x6f, 0x6c];
    assert(kstr@ =~= kw_str());
    assert(ku8@ =~= kw_u8());
    assert(ki8@ =~= kw_i8());
    assert(kbool@ =~= kw_bool());
    let (ty, k2) = if match_kw(code, k, &kstr, 3) {
        (VarType::Str, k + 4)
    } else if match_kw(code, k, &ku8, 2) {
        (VarType::U8, k + 3)
    } else if match_kw(code, k, &ki8, 2) {
        (VarType::I8, k + 3)
    } else if match_kw(code, k, &kbool, 4) {
        (VarType::Bool, k + 5)
    } else {
        (VarType::U8, k)
    };
    assert((ty, k2 as int) == decl_type(code@, k as int));
    if k2 > code.len() {
        return (k2, Flow::Crash);
    }
    let e = skip_class(code, k2, Class::NameByte);
    proof {
        lemma_skip(code@, k2 as int, Class::NameByte);
    }
    let name = copy_range(code, k2, e);
    let v = skip_class(code, e, Class::SpaceOrEq);
    proof {
        lemma_skip(code@, e as int, Class::SpaceOrEq);
        lemma_first_index(vars@, decl_fits(name@));
    }
    match vars.find_decl(name.as_slice()) {
        None => (v, Flow::Go),
        Some(s) => {
            let mut nv = vars.slots[s];
            nv.active = true;
            nv.v_type = ty;
            nv.name = pad16(name.as_slice());
            let ghost base = nv@;
            let mut crashed = false;
            let mut pos = v;
            match ty {
                VarType::Str => {
                    if v <= code.len() && code.len() - v >= 2 && code[v] == 0x2c && code[v + 1] == 0x2c {
                        let e2 = find_pair(code, v + 2);
                        proof {
                            lemma_until_pair(code@, v + 2);
                        }
                        let sv = copy_range(code, v + 2, e2);
                        nv.s_val = pad32(sv.as_slice());
                        pos = e2 + 2;
                    }
                },
                VarType::U8 => {
                    let (d, val) = read_number(code, v, 65535);
                    pos = d;
                    match val {
                        Some(n) => {
                            nv.u_val = (n % 256) as u8;
                        },
                        None => {
                            crashed = true;
                        },
                    }
                },
                VarType::I8 => {
                    let neg = v < code.len() && code[v] == 0x2d;
                    let st = if neg { v + 1 } else { v };
                    let (d, val) = read_number(code, st, 32767);
                    pos = d;
                    match val {
                        Some(n) => {
                            let fv: i32 = if neg { -(n as i32) } else { n as i32 };
                            nv.i_val = if fv < -128 { -128 } else if fv > 127 { 127 } else { fv as i8 };
                        },
                        None => {
                            crashed = true;
                        },
                    }
                },
                VarType::Bool => {
                    let kt: [u8; 4] = [0x74, 0x72, 0x75, 0x65];
                    let kf: [u8; 5] = [0x66, 0x61, 0x6c, 0x73, 0x65];
                    let km: [u8; 5] = [0x6d, 0x61, 0x79, 0x62, 0x65];
                    assert(kt@ =~= kw_true());
                    assert(kf@ =~= kw_false());
                    assert(km@ =~= kw_maybe());
                    if match_kw(code, v, &kt, 4) {
                        nv.b_val = TriBool::True;
                        pos = v + 4;
                    } else if match_kw(code, v, &kf, 5) {
                        nv.b_val = TriBool::False;
                        pos = v + 5;
                    } else if match_kw(code, v, &km, 5) {
                        nv.b_val = TriBool::Maybe;
                        pos = v + 5;
                    }
                },
            }
            assert((nv@, pos as int, crashed) == decl_value(code@, v as int, ty, base));
            vars.slots[s] = nv;
            assert(vars@ =~= old(vars)@.update(s as int, nv@));
            (pos, if crashed { Flow::Crash } else { Flow::Go })
        },
    }
}

/// Runs an `add` or `sub` statement at `i`.
fn exec_arith(code: &[u8], i: usize, vars: &mut Vars) -> (res: (usize, Flow))
    requires
        kw_at(code@, i as int, kw_add(), 4) || kw_at(code@, i as int, kw_sub(), 4),
        code.len() <= isize::MAX,
    ensures
        res.0 == arith_effect(code@, i as int, old(vars)@).pos,
        flow_is(res.1, arith_effect(code@, i as int, old(vars)@).next),
        final(vars)@ == arith_effect(code@, i as int, old(vars)@).vars,
{
    let kadd: [u8; 3] = [0x61, 0x64, 0x64];
    assert(kadd@ =~= kw_add());
    let is_add = match_kw(code, i, &kadd, 3);
    let k = i + 4;
    let e = skip_class(code, k, Class::NotSpace);
    proof {
        lemma_skip(code@, k as int, Class::NotSpace);
    }
    let name = copy_range(code, k, e);
    let v = skip_class(code, e, Class::Space);
    proof {
        lemma_skip(code@, e as int, Class::Space);
    }
    let neg = v < code.len() && code[v] == 0x2d;
    let st = if neg { v + 1 } else { v };
    let (d, val) = read_number(code, st, 32767);
    let n = match val {
        Some(n) => n,
        None => {
            return (d, Flow::Crash);
        },
    };
    let delta: i32 = if neg { -(n as i32) } else { n as i32 };
    match vars.find_live(name.as_slice()) {
        Some(s) => {
            let mut old_v = vars.slots[s];
            match old_v.v_type {
                VarType::U8 => {
                    let x: i32 = if is_add { old_v.u_val as i32 + delta } else { old_v.u_val as i32 - delta };
                    old_v.u_val = wrapped_u8(x);
                },
                VarType::I8 => {
                    let x: i32 = if is_add { old_v.i_val as i32 + delta } else { old_v.i_val as i32 - delta };
                    old_v.i_val = wrapped_i8(x);
                },
                _ => {},
            }
            vars.slots[s] = old_v;
            assert(vars@ =~= arith_effect(code@, i as int, old(vars)@).vars);
        },
        None => {},
    }
    (d, Flow::Go)
}

/// Runs the statement at `i`, which is not blank: prints what it prints,
/// updates the variables, and says where the program goes on and what
/// comes next (see `stmt`).
pub fn run_statement(code: &[u8], i: usize, vars: &mut Vars, win: &mut Window) -> (res: (usize, Flow))
    requires
        i < code.len(),
        code.len() <= isize::MAX,
        old(win).wf(),
    ensures
        final(win).wf(),
        final(win).same_frame(*old(win)),
        res.0 == stmt(code@, i as int, old(vars)@).pos,
        flow_is(res.1, stmt(code@, i as int, old(vars)@).next),
        final(vars)@ == stmt(code@, i as int, old(vars)@).vars,
        final(win).term() == printed_all(old(win).term(), stmt(code@, i as int, old(vars)@).out, 0x0F),
{
    let kprint: [u8; 5] = [0x70, 0x72, 0x69, 0x6e, 0x74];
    let kvar: [u8; 3] = [0x76, 0x61, 0x72];
    let kadd: [u8; 3] = [0x61, 0x64, 0x64];
    let ksub: [u8; 3] = [0x73, 0x75, 0x62];
    let kcall: [u8; 7] = [0x63, 0x61, 0x6c, 0x6c, 0x20, 0x66, 0x6e];
    let kloop: [u8; 10] = [0x6c, 0x6f, 0x6f, 0x70, 0x2e, 0x6c, 0x6f, 0x6f, 0x70, 0x2f];
    assert(kprint@ =~= kw_print());
    assert(kvar@ =~= kw_var());
    assert(kadd@ =~= kw_add());
    assert(ksub@ =~= kw_sub());
    assert(kcall@ =~= kw_call());
    assert(kloop@ =~= kw_loop());
    proof {
        assert(printed_all(old(win).term(), Seq::<u8>::empty(), 0x0F) == old(win).term());
    }
    if match_kw(code, i, &kprint, 5) {
        exec_print(code, i, vars, win)
    } else if match_kw(code, i, &kvar, 4) {
        exec_var(code, i, vars)
    } else if match_kw(code, i, &kadd, 4) || match_kw(code, i, &ksub, 4) {
        exec_arith(code, i, vars)
    } else if match_kw(code, i, &kcall, 8) {
        let e = skip_class(code, i + 8, Class::Graphic);
        proof {
            lemma_skip(code@, i + 8, Class::Graphic);
        }
        (e, Flow::Call(copy_range(code, i + 8, e)))
    } else if match_kw(code, i, &kloop, 10) {
        let e = skip_class(code, i + 10, Class::LineByte);
        proof {
            lemma_skip(code@, i + 10, Class::LineByte);
        }
        (e, Flow::Loop(copy_padded(code, i + 10, e, 512)))
    } else {
        (i + 1, Flow::Go)
    }
}

// ----------------------------------------------------------------------
// Functions
// ----------------------------------------------------------------------

pub open spec fn kw_fn() -> Seq<u8> {
    seq![0x66u8, 0x6e, 0x2f]
}

/// `fn/<name>/` starts at `j` of `content`.
pub open spec fn header_at(content: Seq<u8>, name: Seq<u8>, j: int) -> bool {
    &&& 0 <= j
    &&& j + 4 + name.len() <= content.len()
    &&& content.subrange(j, j + 3) == kw_fn()
    &&& content.subrange(j + 3, j + 3 + name.len()) == name
    &&& content[j + 3 + name.len()] == 0x2f
}

/// The first header of function `name` at or after `j`, or -1.
pub open spec fn header_from(content: Seq<u8>, name: Seq<u8>, j: int) -> int
    decreases content.len() - j,
{
    if j < 0 || j + 4 + name.len() > content.len() {
        -1
    } else if header_at(content, name, j) {
        j
    } else {
        header_from(content, name, j + 1)
    }
}

/// Where the body that starts at `k` ends: at the next `fn/`, or three bytes
/// before the end of the content.
pub open spec fn body_end(content: Seq<u8>, k: int) -> int
    decreases content.len() - k,
{
    if k < 0 || k + 3 > content.len() || content.subrange(k, k + 3) == kw_fn() {
        k
    } else {
        body_end(content, k + 1)
    }
}

pub proof fn lemma_header_from(content: Seq<u8>, name: Seq<u8>, j: int)
    requires
        0 <= j,
    ensures
        header_from(content, name, j) == -1 || (j <= header_from(content, name, j)
            && header_at(content, name, header_from(content, name, j))),
    decreases content.len() - j,
{
    if !(j + 4 + name.len() > content.len()) && !header_at(content, name, j) {
        lemma_header_from(content, name, j + 1);
    }
}

pub proof fn lemma_body_end(content: Seq<u8>, k: int)
    requires
        0 <= k <= content.len(),
    ensures
        k <= body_end(content, k) <= content.len(),
    decreases content.len() - k,
{
    if !(k + 3 > content.len() || content.subrange(k, k + 3) == kw_fn()) {
        lemma_body_end(content, k + 1);
    }
}

/// The body of function `name` in `content`, if it defines one.
pub open spec fn fn_in(content: Seq<u8>, name: Seq<u8>) -> Option<Seq<u8>> {
    let j = header_from(content, name, 0);
    if j < 0 {
        None
    } else {
        let sb = j + 4 + name.len();
        Some(content.subrange(sb, body_end(content, sb)))
    }
}

/// The body of function `name` in the first active file of `folder` (from
/// slot `f` on) that defines it.
pub open spec fn fn_body_from(files: Seq<File>, folder: u8, name: Seq<u8>, f: int) -> Option<Seq<u8>>
    decreases files.len() - f,
{
    if f < 0 || f >= files.len() {
        None
    } else if files[f].active && files[f].folder_id == folder && fn_in(files[f].content@, name) is Some {
        fn_in(files[f].content@, name)
    } else {
        fn_body_from(files, folder, name, f + 1)
    }
}

/// The body that `call fn name` runs.
pub open spec fn fn_body(files: Seq<File>, folder: u8, name: Seq<u8>) -> Option<Seq<u8>> {
    fn_body_from(files, folder, name, 0)
}

/// Whether `kw` and then `name` and `/` stand at `j`.
fn header_matches(content: &[u8; 512], name: &[u8], j: usize) -> (res: bool)
    requires
        j + 4 + name.len() <= 512,
    ensures
        res == header_at(content@, name@, j as int),
{
    let kfn: [u8; 3] = [0x66, 0x6e, 0x2f];
    assert(kfn@ =~= kw_fn());
    if !match_kw(content, j, &kfn, 3) {
        return false;
    }
    let mut t: usize = 0;
    while t < name.len()
        invariant
            t <= name.len(),
            j + 4 + name.len() <= 512,
            forall|u: int| 0 <= u < t ==> content@[j + 3 + u] == name@[u],
        decreases name.len() - t,
    {
        if content[j + 3 + t] != name[t] {
            assert(content@.subrange(j + 3, j + 3 + name.len())[t as int] != name@[t as int]);
            return false;
        }
        t = t + 1;
    }
    assert(content@.subrange(j + 3, j + 3 + name.len()) =~= name@);
    content[j + 3 + name.len()] == 0x2f
}

/// The body of function `name` in `content`, if it defines one.
pub fn find_fn_in(content: &[u8; 512], name: &[u8]) -> (res: Option<Vec<u8>>)
    ensures
        match res {
            Some(b) => fn_in(content@, name@) == Some(b@),
            None => fn_in(content@, name@) is None,
        },
{
    let kfn: [u8; 3] = [0x66, 0x6e, 0x2f];
    assert(kfn@ =~= kw_fn());
    if name.len() > 508 {
        return None;
    }
    let mut j: usize = 0;
    while j + 4 + name.len() <= 512
        invariant
            name.len() <= 508,
            j <= 512,
            kfn@ == kw_fn(),
            header_from(content@, name@, j as int) == header_from(content@, name@, 0),
        decreases 512 - j,
    {
        if header_matches(content, name, j) {
            let sb = j + 4 + name.len();
            let mut k = sb;
            while k + 3 <= 512 && !match_kw(content, k, &kfn, 3)
                invariant
                    sb <= k <= 512,
                    kfn@ == kw_fn(),
                    body_end(content@, k as int) == body_end(content@, sb as int),
                decreases 512 - k,
            {
                k = k + 1;
            }
            return Some(copy_range(content, sb, k));
        }
        j = j + 1;
    }
    None
}

/// The body that `call fn name` runs: that of the first active file of
/// `folder` that defines the function.
pub fn find_fn(files: &[File; 10], folder: u8, name: &[u8]) -> (res: Option<Vec<u8>>)
    ensures
        match res {
            Some(b) => fn_body(files@, folder, name@) == Some(b@),
            None => fn_body(files@, folder, name@) is None,
        },
{
    let mut f: usize = 0;
    while f < 10
        invariant
            f <= 10,
            fn_body_from(files@, folder, name@, f as int) == fn_body(files@, folder, name@),
        decreases 10 - f,
    {
        let file = &files[f];
        if file.active && file.folder_id == folder {
            match find_fn_in(&file.content, name) {
                Some(b) => {
                    return Some(b);
                },
                None => {},
            }
        }
        f = f + 1;
    }
    None
}

// ----------------------------------------------------------------------
// The machine
// ----------------------------------------------------------------------

/// Calls nest at most this deep: a call made with this many frames running
/// does nothing.
pub const MAX_FRAMES: usize = 11;

/// A running call: its code, where it has got to and, while it repeats a
/// `loop.loop/` line, the body it repeats.
pub struct Frame {
    pub code: Vec<u8>,
    pub pos: usize,
    pub looping: Option<Vec<u8>>,
}

pub struct FrameV {
    pub code: Seq<u8>,
    pub pos: int,
    pub looping: Option<Seq<u8>>,
}

impl View for Frame {
    type V = FrameV;

    open spec fn view(&self) -> FrameV {
        FrameV {
            code: self.code@,
            pos: self.pos as int,
            looping: match self.looping {
                Some(b) => Some(b@),
                None => None,
            },
        }
    }
}

/// No code of the frame is longer than a slice can be.
pub open spec fn frame_ok(f: FrameV) -> bool {
    &&& f.code.len() <= isize::MAX
    &&& (f.looping matches Some(b) ==> b.len() <= isize::MAX)
}

/// At most `MAX_FRAMES` frames, each of them fit to run.
pub open spec fn frames_ok(fs: Seq<FrameV>) -> bool {
    &&& fs.len() <= MAX_FRAMES
    &&& forall|k: int| 0 <= k < fs.len() ==> frame_ok(#[trigger] fs[k])
}

/// The calls above the first run bodies of at most 512 bytes, every loop
/// body is at most 512 bytes, and no call has gone more than nine bytes
/// past the end of its code.
pub open spec fn stack_shape(fs: Seq<FrameV>) -> bool {
    &&& forall|k: int| 0 <= k < fs.len() ==> 0 <= (#[trigger] fs[k]).pos <= fs[k].code.len() + 9
    &&& forall|k: int| 1 <= k < fs.len() ==> (#[trigger] fs[k]).code.len() <= 512
    &&& forall|k: int| 0 <= k < fs.len() ==> ((#[trigger] fs[k]).looping matches Some(b) ==> b.len() <= 512)
}

/// What is left of a call: its code past where it has got to, and a little
/// more, so that a call at its end still counts.
pub open spec fn rest(f: FrameV) -> int {
    f.code.len() + 10 - f.pos
}

/// The weight of a call `k` places above the top that the machine allows.
pub open spec fn depth_weight(k: nat) -> nat
    decreases k,
{
    if k == 0 { 1 } else { 1024 * depth_weight((k - 1) as nat) }
}

/// What is left of the first `n` calls, each weighted by how deep it sits:
/// a call's weight outweighs everything a call on top of it can add.
pub open spec fn rest_upto(fs: Seq<FrameV>, n: int) -> int
    decreases n,
{
    if n <= 0 {
        0
    } else {
        rest_upto(fs, n - 1) + rest(fs[n - 1]) * depth_weight((MAX_FRAMES - n) as nat)
    }
}

/// What is left of a run: it falls with every step of a call that does not
/// wait in a loop (see `Script::step`), so a run without `loop.loop/` ends.
pub open spec fn run_measure(fs: Seq<FrameV>) -> int {
    rest_upto(fs, fs.len() as int)
}

proof fn lemma_weight_pos(k: nat)
    ensures
        depth_weight(k) >= 1,
    decreases k,
{
    if k > 0 {
        lemma_weight_pos((k - 1) as nat);
    }
}

proof fn lemma_rest_prefix(a: Seq<FrameV>, b: Seq<FrameV>, n: int)
    requires
        0 <= n <= a.len(),
        n <= b.len(),
        forall|k: int| 0 <= k < n ==> a[k] == b[k],
    ensures
        rest_upto(a, n) == rest_upto(b, n),
    decreases n,
{
    if n > 0 {
        lemma_rest_prefix(a, b, n - 1);
    }
}

proof fn lemma_rest_nonneg(fs: Seq<FrameV>, n: int)
    requires
        0 <= n <= fs.len(),
        fs.len() <= MAX_FRAMES,
        stack_shape(fs),
    ensures
        rest_upto(fs, n) >= 0,
    decreases n,
{
    if n > 0 {
        lemma_rest_nonneg(fs, n - 1);
        assert(rest(fs[n - 1]) >= 1);
        lemma_weight_pos((MAX_FRAMES - n) as nat);
        assert(rest(fs[n - 1]) * depth_weight((MAX_FRAMES - n) as nat) >= 0) by (nonlinear_arith)
            requires rest(fs[n - 1]) >= 1, depth_weight((MAX_FRAMES - n) as nat) >= 1;
    }
}

/// Moving the running call on lowers the measure; so does ending it, or
/// moving it on and starting a call of at most 512 bytes on top of it.
proof fn lemma_measure_moves(fs: Seq<FrameV>, f: FrameV, g: FrameV)
    requires
        1 <= fs.len() <= MAX_FRAMES,
        stack_shape(fs),
    ensures
        rest(fs.last()) >= 1,
        run_measure(fs.drop_last()) < run_measure(fs),
        rest(f) < rest(fs.last()) ==> run_measure(fs.update(fs.len() - 1, f)) < run_measure(fs),
        rest(f) < rest(fs.last()) && fs.len() < MAX_FRAMES && 0 <= rest(g) < 1024
            ==> run_measure(fs.update(fs.len() - 1, f).push(g)) < run_measure(fs),
{
    let n = fs.len() as int;
    let w = depth_weight((MAX_FRAMES - n) as nat);
    lemma_weight_pos((MAX_FRAMES - n) as nat);
    let top = fs.last();
    assert(rest(top) >= 1);
    // dropping the top
    lemma_rest_prefix(fs.drop_last(), fs, n - 1);
    assert(rest(top) * w >= 1) by (nonlinear_arith)
        requires rest(top) >= 1, w >= 1;
    if rest(f) < rest(top) {
        let u = fs.update(n - 1, f);
        lemma_rest_prefix(u, fs, n - 1);
        assert(u[n - 1] == f);
        assert(rest(f) * w < rest(top) * w) by (nonlinear_arith)
            requires rest(f) < rest(top), w >= 1;
        if n < MAX_FRAMES && 0 <= rest(g) < 1024 {
            let v = u.push(g);
            let w2 = depth_weight((MAX_FRAMES - n - 1) as nat);
            lemma_weight_pos((MAX_FRAMES - n - 1) as nat);
            assert(w == 1024 * w2);
            lemma_rest_prefix(v, u, n);
            assert(v[n] == g);
            assert(rest(g) * w2 < w) by (nonlinear_arith)
                requires 0 <= rest(g) < 1024, w == 1024 * w2, w2 >= 1;
            assert(rest(f) * w + w <= rest(top) * w) by (nonlinear_arith)
                requires rest(f) < rest(top), w >= 1;
        }
    }
}

/// The stack keeps its shape when the running call ends, moves on within
/// its code, or starts a body of at most 512 bytes on top of it.
proof fn lemma_shape_moves(fs: Seq<FrameV>, f: FrameV, g: FrameV)
    requires
        1 <= fs.len(),
        stack_shape(fs),
    ensures
        stack_shape(fs.drop_last()),
        f.code == fs.last().code && 0 <= f.pos <= f.code.len() + 9
            && (f.looping matches Some(b) ==> b.len() <= 512)
            ==> stack_shape(fs.update(fs.len() - 1, f)),
        f.code == fs.last().code && 0 <= f.pos <= f.code.len() + 9
            && (f.looping matches Some(b) ==> b.len() <= 512)
            && g.pos == 0 && g.code.len() <= 512 && g.looping is None
            ==> stack_shape(fs.update(fs.len() - 1, f).push(g)),
{
    let n = fs.len() - 1;
    assert forall|k: int| 0 <= k < n implies #[trigger] fs.drop_last()[k] == fs[k] by {}
    let u = fs.update(n, f);
    assert forall|k: int| 0 <= k < n implies #[trigger] u[k] == fs[k] by {}
    let v = u.push(g);
    assert forall|k: int| 0 <= k <= n implies #[trigger] v[k] == u[k] by {}
}

/// A run of steps that each lower the measure ends: it is at most as long
/// as the measure at its start, and one more.
pub proof fn lemma_run_ends(run: Seq<Seq<FrameV>>)
    requires
        run.len() >= 1,
        forall|i: int| 0 <= i < run.len() ==> frames_ok(#[trigger] run[i]) && stack_shape(run[i]),
        forall|i: int| 0 <= i < run.len() - 1 ==> run_measure(#[trigger] run[i + 1]) < run_measure(run[i]),
    ensures
        run.len() <= run_measure(run[0]) + 1,
{
    lemma_measure_falls(run, run.len() - 1);
    let l = run.last();
    assert(frames_ok(l) && stack_shape(l));
    lemma_rest_nonneg(l, l.len() as int);
}

proof fn lemma_measure_falls(run: Seq<Seq<FrameV>>, i: int)
    requires
        0 <= i < run.len(),
        forall|j: int| 0 <= j < run.len() - 1 ==> run_measure(#[trigger] run[j + 1]) < run_measure(run[j]),
    ensures
        run_measure(run[i]) <= run_measure(run[0]) - i,
    decreases i,
{
    if i > 0 {
        lemma_measure_falls(run, i - 1);
        assert(run_measure(run[(i - 1) + 1]) < run_measure(run[i - 1]));
    }
}

proof fn lemma_frames_update(fs: Seq<FrameV>, f: FrameV)
    requires
        frames_ok(fs),
        fs.len() > 0,
        frame_ok(f),
    ensures
        frames_ok(fs.update(fs.len() - 1, f)),
        frames_ok(fs.drop_last()),
        frames_ok(fs.drop_last().push(f)),
        frame_ok(fs.last()),
{
    assert forall|k: int| 0 <= k < fs.len() implies frame_ok(#[trigger] fs.update(fs.len() - 1, f)[k]) by {
        if k != fs.len() - 1 {
            assert(fs.update(fs.len() - 1, f)[k] == fs[k]);
        }
    }
    assert forall|k: int| 0 <= k < fs.len() - 1 implies frame_ok(#[trigger] fs.drop_last()[k]) by {
        assert(fs.drop_last()[k] == fs[k]);
    }
    assert(fs.drop_last().push(f) =~= fs.update(fs.len() - 1, f));
}

proof fn lemma_frames_push(fs: Seq<FrameV>, f: FrameV)
    requires
        frames_ok(fs),
        fs.len() < MAX_FRAMES,
        frame_ok(f),
    ensures
        frames_ok(fs.push(f)),
{
    assert forall|k: int| 0 <= k < fs.len() + 1 implies frame_ok(#[trigger] fs.push(f)[k]) by {
        if k < fs.len() {
            assert(fs.push(f)[k] == fs[k]);
        }
    }
}

/// A function body is part of a file's content.
proof fn lemma_fn_body_len(files: Seq<File>, folder: u8, name: Seq<u8>, f: int)
    requires
        0 <= f,
    ensures
        fn_body_from(files, folder, name, f) matches Some(b) ==> b.len() <= 512,
    decreases files.len() - f,
{
    if f < files.len() {
        let content = files[f].content@;
        let j = header_from(content, name, 0);
        lemma_header_from(content, name, 0);
        if j >= 0 {
            lemma_body_end(content, j + 4 + name.len());
        }
        lemma_fn_body_len(files, folder, name, f + 1);
    }
}

/// One move of the call stack: the calls below the running one are kept,
/// and the stack grows or shrinks by at most one call; an empty stack stays
/// empty.
pub open spec fn stack_step(a: Seq<FrameV>, b: Seq<FrameV>) -> bool {
    if a.len() == 0 {
        b == a
    } else {
        &&& a.len() - 1 <= b.len() <= a.len() + 1
        &&& b.take(a.len() - 1) == a.take(a.len() - 1)
    }
}

/// A call returns to where it was made: along a run of stack moves that
/// starts with a call on top of `n` frames and stays above them until the
/// stack is `n` deep again, those `n` frames come back exactly as they were.
pub proof fn lemma_call_returns(run: Seq<Seq<FrameV>>, n: int)
    requires
        run.len() >= 2,
        forall|i: int| 0 <= i < run.len() - 1 ==> stack_step(#[trigger] run[i], run[i + 1]),
        run[0].len() == n + 1,
        forall|i: int| 0 < i < run.len() - 1 ==> (#[trigger] run[i]).len() > n,
        run.last().len() == n,
    ensures
        run.last() == run[0].take(n),
{
    lemma_bottom_kept(run, n, run.len() - 1);
    assert(run.last() =~= run.last().take(n));
}

/// The moves that the machine makes: keep the stack, drop the running
/// call, change it, and add a call on top.
proof fn lemma_stack_moves(fs: Seq<FrameV>)
    requires
        fs.len() > 0,
    ensures
        stack_step(fs, fs),
        stack_step(fs, fs.drop_last()),
        forall|f: FrameV| stack_step(fs, #[trigger] fs.update(fs.len() - 1, f)),
        forall|f: FrameV, g: FrameV| stack_step(fs, #[trigger] fs.update(fs.len() - 1, f).push(g)),
        forall|g: FrameV| stack_step(fs, #[trigger] fs.push(g)),
{
    let k = fs.len() - 1;
    assert(fs.drop_last().take(k) =~= fs.take(k));
    assert forall|f: FrameV| stack_step(fs, #[trigger] fs.update(fs.len() - 1, f)) by {
        assert(fs.update(k, f).take(k) =~= fs.take(k));
    }
    assert forall|f: FrameV, g: FrameV| stack_step(fs, #[trigger] fs.update(fs.len() - 1, f).push(g)) by {
        assert(fs.update(k, f).push(g).take(k) =~= fs.take(k));
    }
    assert forall|g: FrameV| stack_step(fs, #[trigger] fs.push(g)) by {
        assert(fs.push(g).take(k) =~= fs.take(k));
    }
}

/// The first `i` moves of such a run keep the bottom `n` frames.
proof fn lemma_bottom_kept(run: Seq<Seq<FrameV>>, n: int, i: int)
    requires
        0 <= n,
        0 <= i < run.len(),
        forall|j: int| 0 <= j < run.len() - 1 ==> stack_step(#[trigger] run[j], run[j + 1]),
        run[0].len() == n + 1,
        forall|j: int| 0 < j < run.len() - 1 ==> (#[trigger] run[j]).len() > n,
    ensures
        run[i].len() >= n,
        run[i].take(n) == run[0].take(n),
    decreases i,
{
    if i > 0 {
        lemma_bottom_kept(run, n, i - 1);
        let a = run[i - 1];
        let b = run[i];
        assert(stack_step(a, b));
        assert(a.len() >= n + 1);
        assert(b.take(n) =~= b.take(a.len() - 1).take(n));
        assert(a.take(n) =~= a.take(a.len() - 1).take(n));
    }
}

/// A program run: the stack of calls and the folder whose files `call fn`
/// searches.
pub struct Script {
    pub frames: Vec<Frame>,
    pub folder: u8,
}

/// What the machine needs after a step.
#[derive(Clone, Copy, Debug, PartialEq, Eq)]
pub enum Status {
    /// More steps to take.
    Running,
    /// A loop waits for its next round: show the screen, wait 16 ms, read
    /// the keyboard and hand the key to `tick`.
    Tick,
    /// The program has ended.
    Done,
    /// An overflow stopped the machine, as it stopped the system.
    Crashed,
}

impl Script {
    pub open spec fn view(&self) -> Seq<FrameV> {
        self.frames@.map_values(|f: Frame| f@)
    }

    /// At most `MAX_FRAMES` calls run, no code is longer than a slice can
    /// be, and the stack has the shape that `run_measure` needs (see
    /// `stack_shape`).
    pub open spec fn wf(&self) -> bool {
        &&& frames_ok(self@)
        &&& stack_shape(self@)
    }

    /// A run of `code` for the files of `folder`.
    pub fn new(code: &[u8], folder: u8) -> (res: Script)
        requires
            code.len() <= isize::MAX,
        ensures
            res.wf(),
            res.folder == folder,
            res@ == seq![FrameV { code: code@, pos: 0, looping: None }],
    {
        let mut frames: Vec<Frame> = Vec::new();
        let mut c: Vec<u8> = Vec::new();
        let mut k: usize = 0;
        while k < code.len()
            invariant
                k <= code.len(),
                c@ == code@.take(k as int),
            decreases code.len() - k,
        {
            c.push(code[k]);
            assert(c@ =~= code@.take(k + 1));
            k = k + 1;
        }
        assert(c@ =~= code@);
        frames.push(Frame { code: c, pos: 0, looping: None });
        let res = Script { frames, folder };
        assert(res@ =~= seq![FrameV { code: code@, pos: 0, looping: None }]);
        res
    }

    /// Runs one statement of the innermost call (see `stmt`), or ends that
    /// call when only blanks are left; a `call fn` starts the function's body
    /// when fewer than `MAX_FRAMES` calls run, and a `loop.loop/` line makes
    /// the call wait for ticks.
    pub fn step(&mut self, vars: &mut Vars, win: &mut Window, files: &[File; 10]) -> (res: Status)
        requires
            old(self).wf(),
            old(win).wf(),
        ensures
            final(self).wf(),
            final(win).wf(),
            final(win).same_frame(*old(win)),
            final(self).folder == old(self).folder,
            stack_step(old(self)@, final(self)@),
            old(self)@.len() > 0 && old(self)@.last().looping is None
                ==> run_measure(final(self)@) < run_measure(old(self)@),
            old(self)@.len() == 0 ==> res == Status::Done && final(self)@ == old(self)@
                && final(vars)@ == old(vars)@ && final(win).term() == old(win).term(),
            old(self)@.len() > 0 ==> ({
                let fs = old(self)@;
                let top = fs.last();
                let p = skip(top.code, top.pos, Class::Blank);
                if top.looping is Some {
                    &&& res == Status::Tick
                    &&& final(self)@ == fs
                    &&& final(vars)@ == old(vars)@
                    &&& final(win).term() == old(win).term()
                } else if p >= top.code.len() {
                    &&& res == Status::Running
                    &&& final(self)@ == fs.drop_last()
                    &&& final(vars)@ == old(vars)@
                    &&& final(win).term() == old(win).term()
                } else {
                    let eff = stmt(top.code, p, old(vars)@);
                    let moved = fs.update(fs.len() - 1, FrameV { pos: eff.pos, ..top });
                    &&& final(vars)@ == eff.vars
                    &&& final(win).term() == printed_all(old(win).term(), eff.out, 0x0F)
                    &&& match eff.next {
                        Next::Go => res == Status::Running && final(self)@ == moved,
                        Next::Crash => res == Status::Crashed && final(self)@ == moved,
                        Next::Loop(body) => res == Status::Running && final(self)@
                            == fs.update(fs.len() - 1, FrameV { pos: eff.pos, looping: Some(body), ..top }),
                        Next::Call(name) => res == Status::Running && final(self)@ == (
                            match fn_body(files@, old(self).folder, name) {
                                Some(b) => if fs.len() < MAX_FRAMES {
                                    moved.push(FrameV { code: b, pos: 0, looping: None })
                                } else {
                                    moved
                                },
                                None => moved,
                            }),
                    }
                }
            }),
    {
        let n = self.frames.len();
        if n == 0 {
            return Status::Done;
        }
        let ghost fs = self@;
        let mut top = self.frames.pop().unwrap();
        assert(self@ =~= fs.drop_last());
        assert(top@ == fs.last());
        proof {
            lemma_frames_update(fs, fs.last());
            lemma_stack_moves(fs);
        }
        if top.looping.is_some() {
            self.frames.push(top);
            assert(self@ =~= fs);
            return Status::Tick;
        }
        let p = skip_class(top.code.as_slice(), top.pos, Class::Blank);
        proof {
            lemma_skip(top@.code, top@.pos, Class::Blank);
            lemma_measure_moves(fs, top@, top@);
            lemma_shape_moves(fs, top@, top@);
        }
        if p >= top.code.len() {
            return Status::Running;
        }
        let ghost top0 = top@;
        proof {
            lemma_stmt_pos(top0.code, p as int, vars@);
        }
        let (pos, flow) = run_statement(top.code.as_slice(), p, vars, win);
        top.pos = pos;
        assert(top@ == FrameV { pos: pos as int, ..top0 });
        proof {
            lemma_frames_update(fs, top@);
            lemma_measure_moves(fs, top@, top@);
            lemma_shape_moves(fs, top@, top@);
        }
        match flow {
            Flow::Go => {
                self.frames.push(top);
                assert(self@ =~= fs.update(fs.len() - 1, top@));
                Status::Running
            },
            Flow::Crash => {
                self.frames.push(top);
                assert(self@ =~= fs.update(fs.len() - 1, top@));
                Status::Crashed
            },
            Flow::Loop(body) => {
                top.looping = Some(body);
                proof {
                    lemma_frames_update(fs, top@);
                    lemma_measure_moves(fs, top@, top@);
                    lemma_shape_moves(fs, top@, top@);
                }
                self.frames.push(top);
                assert(self@ =~= fs.update(fs.len() - 1, top@));
                Status::Running
            },
            Flow::Call(name) => {
                self.frames.push(top);
                assert(self@ =~= fs.update(fs.len() - 1, top@));
                let found = find_fn(files, self.folder, name.as_slice());
                proof {
                    lemma_fn_body_len(files@, self.folder, name@, 0);
                }
                match found {
                    Some(b) => {
                        if n < MAX_FRAMES {
                            let ghost mid = self@;
                            let fr = Frame { code: b, pos: 0, looping: None };
                            proof {
                                lemma_frames_push(mid, fr@);
                                lemma_measure_moves(fs, top@, fr@);
                                lemma_shape_moves(fs, top@, fr@);
                            }
                            self.frames.push(fr);
                            assert(self@ =~= mid.push(fr@));
                        }
                    },
                    None => {},
                }
                Status::Running
            },
        }
    }

    /// A round of the loop that the innermost call repeats, given the key
    /// read in the pause before it: ESC ends the loop with a red
    /// "[Loop Terminated]" line; any other key (or none) runs the body once
    /// more, when fewer than `MAX_FRAMES` calls run.
    pub fn tick(&mut self, key: Option<u8>, win: &mut Window)
        requires
            old(self).wf(),
            old(win).wf(),
            old(self)@.len() > 0,
            old(self)@.last().looping is Some,
        ensures
            final(self).wf(),
            final(win).wf(),
            final(win).same_frame(*old(win)),
            final(self).folder == old(self).folder,
            stack_step(old(self)@, final(self)@),
            ({
                let fs = old(self)@;
                let top = fs.last();
                if key == Some(0x01u8) {
                    &&& final(self)@ == fs.update(fs.len() - 1, FrameV { looping: None, ..top })
                    &&& final(win).term() == printed_all(old(win).term(), loop_end_text(), 0x0C)
                } else {
                    &&& final(self)@ == (if fs.len() < MAX_FRAMES {
                        fs.push(FrameV { code: top.looping->0, pos: 0, looping: None })
                    } else {
                        fs
                    })
                    &&& final(win).term() == old(win).term()
                }
            }),
    {
        let ghost fs = self@;
        proof {
            lemma_stack_moves(fs);
        }
        let n = self.frames.len();
        let mut top = self.frames.pop().unwrap();
        assert(self@ =~= fs.drop_last());
        if key == Some(0x01u8) {
            top.looping = None;
            self.frames.push(top);
            assert(self@ =~= fs.update(fs.len() - 1, top@));
            let msg: [u8; 19] = [0x0a, 0x5b, 0x4c, 0x6f, 0x6f, 0x70, 0x20, 0x54, 0x65, 0x72, 0x6d,
                                 0x69, 0x6e, 0x61, 0x74, 0x65, 0x64, 0x5d, 0x0a];
            assert(msg@ =~= loop_end_text());
            win.win_print_str(&msg, 0x0C);
        } else {
            let body = match &top.looping {
                Some(b) => copy_range(b.as_slice(), 0, b.len()),
                None => Vec::new(),
            };
            assert(body@ =~= top@.looping->0);
            self.frames.push(top);
            assert(self@ =~= fs);
            if n < MAX_FRAMES {
                self.frames.push(Frame { code: body, pos: 0, looping: None });
                assert(self@ =~= fs.push(FrameV { code: fs.last().looping->0, pos: 0, looping: None }));
            }
        }
    }
}

/// "\n[Loop Terminated]\n".
pub open spec fn loop_end_text() -> Seq<u8> {
    seq![0x0au8, 0x5b, 0x4c, 0x6f, 0x6f, 0x70, 0x20, 0x54, 0x65, 0x72, 0x6d,
         0x69, 0x6e, 0x61, 0x74, 0x65, 0x64, 0x5d, 0x0a]
}

} // verus!
