//! The boot screen: the crab logo centred on a black screen, and the tune
//! that plays under it.
use vstd::prelude::*;
use crate::screen::{cell, make_cell};
use crate::text::{
    logo_0, logo_1, logo_2, logo_3, logo_4, logo_5, logo_6, t_logo_0, t_logo_1, t_logo_2,
    t_logo_3, t_logo_4, t_logo_5, t_logo_6,
};

verus! {

/// Rows of the logo.
pub const LOGO_ROWS: usize = 7;
/// The screen row of the logo's first row: half the screen's height less
/// half the logo's.
pub const LOGO_TOP: usize = 9;
/// Cells of the whole VGA text screen.
pub const SCREEN_CELLS: usize = 2000;

/// Row `i` of the logo.
pub open spec fn logo_line(i: int) -> Seq<u8> {
    if i == 0 { t_logo_0() } else if i == 1 { t_logo_1() } else if i == 2 { t_logo_2() }
    else if i == 3 { t_logo_3() } else if i == 4 { t_logo_4() } else if i == 5 { t_logo_5() }
    else { t_logo_6() }
}

/// The colour of row `i`: the crab in light red, the name in white.
pub open spec fn logo_color(i: int) -> u8 {
    if i < 4 { 0x0C } else { 0x0F }
}

/// The column where row `i` starts, so that it is centred.
pub open spec fn logo_x(i: int) -> int {
    40 - logo_line(i).len() / 2
}

/// Cell `k` of the boot screen: a logo byte in its row's colour, or a blank
/// on black.
pub open spec fn logo_cell(k: int) -> u16 {
    let i = k / 80 - LOGO_TOP;
    let col = k % 80;
    if 0 <= i < LOGO_ROWS && logo_x(i) <= col < logo_x(i) + logo_line(i).len() {
        cell(logo_line(i)[col - logo_x(i)], logo_color(i))
    } else {
        cell(0x20, 0x00)
    }
}

/// Row `i` of the logo.
fn logo_text(i: usize) -> (res: Vec<u8>)
    requires
        i < LOGO_ROWS,
    ensures
        res@ == logo_line(i as int),
{
    let a: [u8; 24] = if i == 0 { logo_0() } else if i == 1 { logo_1() } else if i == 2 { logo_2() }
        else if i == 3 { logo_3() } else { logo_4() };
    if i < 5 {
        let mut v: Vec<u8> = Vec::new();
        let mut k: usize = 0;
        while k < 24
            invariant
                k <= 24,
                v@ == a@.take(k as int),
            decreases 24 - k,
        {
            v.push(a[k]);
            assert(v@ =~= a@.take(k + 1));
            k = k + 1;
        }
        assert(a@.take(24) =~= a@);
        v
    } else {
        let b: [u8; 22] = if i == 5 { logo_5() } else { logo_6() };
        let mut v: Vec<u8> = Vec::new();
        let mut k: usize = 0;
        while k < 22
            invariant
                k <= 22,
                v@ == b@.take(k as int),
            decreases 22 - k,
        {
            v.push(b[k]);
            assert(v@ =~= b@.take(k + 1));
            k = k + 1;
        }
        assert(b@.take(22) =~= b@);
        v
    }
}

/// The boot screen, cell by cell (see `logo_cell`).
pub fn logo_frame() -> (res: Vec<u16>)
    ensures
        res@ == Seq::new(SCREEN_CELLS as nat, |k: int| logo_cell(k)),
{
    let mut res: Vec<u16> = Vec::new();
    let mut k: usize = 0;
    while k < SCREEN_CELLS
        invariant
            k <= SCREEN_CELLS,
            res@ == Seq::new(k as nat, |j: int| logo_cell(j)),
        decreases SCREEN_CELLS - k,
    {
        let row = k / 80;
        let col = k % 80;
        let mut c: u16 = make_cell(0x20, 0x00);
        if row >= LOGO_TOP && row < LOGO_TOP + LOGO_ROWS {
            let i = row - LOGO_TOP;
            let line = logo_text(i);
            let x = 40 - line.len() / 2;
            if col >= x && col < x + line.len() {
                let color: u8 = if i < 4 { 0x0C } else { 0x0F };
                c = make_cell(line[col - x], color);
            }
        }
        res.push(c);
        assert(res@ =~= Seq::new((k + 1) as nat, |j: int| logo_cell(j)));
        k = k + 1;
    }
    res
}

/// The boot tune: pairs of a pitch in Hz and how long it sounds in ms.
pub open spec fn boot_tune() -> Seq<(u32, u32)> {
    seq![(392u32, 120u32), (523, 150), (523, 150), (587, 120), (659, 120), (523, 350)]
}

/// The boot tune (see `boot_tune`).
pub fn startup_melody() -> (res: [(u32, u32); 6])
    ensures
        res@ == boot_tune(),
{
    let res: [(u32, u32); 6] = [(392, 120), (523, 150), (523, 150), (587, 120), (659, 120), (523, 350)];
    assert(res@ =~= boot_tune());
    res
}

} // verus!
