//! Keyboard scancodes (set 1) and what the desktop makes of them.
use vstd::prelude::*;

verus! {

/// The byte that a make code produces, unshifted and shifted; `None` for a
/// key that types nothing.
pub open spec fn key_bytes(scancode: u8) -> Option<(u8, u8)> {
    if scancode == 0x02 { Some((0x31, 0x21)) }          // 1 !
    else if scancode == 0x03 { Some((0x32, 0x40)) }     // 2 @
    else if scancode == 0x04 { Some((0x33, 0x23)) }     // 3 #
    else if scancode == 0x05 { Some((0x34, 0x24)) }     // 4 $
    else if scancode == 0x06 { Some((0x35, 0x25)) }     // 5 %
    else if scancode == 0x07 { Some((0x36, 0x5e)) }     // 6 ^
    else if scancode == 0x08 { Some((0x37, 0x26)) }     // 7 &
    else if scancode == 0x09 { Some((0x38, 0x2a)) }     // 8 *
    else if scancode == 0x0A { Some((0x39, 0x28)) }     // 9 (
    else if scancode == 0x0B { Some((0x30, 0x29)) }     // 0 )
    else if scancode == 0x0C { Some((0x2d, 0x5f)) }     // - _
    else if scancode == 0x0D { Some((0x3d, 0x2b)) }     // = +
    else if scancode == 0x0E { Some((0x08, 0x08)) }     // backspace
    else if scancode == 0x0F { Some((0x09, 0x09)) }     // tab
    else if scancode == 0x10 { Some((0x71, 0x51)) }     // q Q
    else if scancode == 0x11 { Some((0x77, 0x57)) }     // w W
    else if scancode == 0x12 { Some((0x65, 0x45)) }     // e E
    else if scancode == 0x13 { Some((0x72, 0x52)) }     // r R
    else if scancode == 0x14 { Some((0x74, 0x54)) }     // t T
    else if scancode == 0x15 { Some((0x79, 0x59)) }     // y Y
    else if scancode == 0x16 { Some((0x75, 0x55)) }     // u U
    else if scancode == 0x17 { Some((0x69, 0x49)) }     // i I
    else if scancode == 0x18 { Some((0x6f, 0x4f)) }     // o O
    else if scancode == 0x19 { Some((0x70, 0x50)) }     // p P
    else if scancode == 0x1A { Some((0x5b, 0x7b)) }     // [ {
    else if scancode == 0x1B { Some((0x5d, 0x7d)) }     // ] }
    else if scancode == 0x1C { Some((0x0a, 0x0a)) }     // enter
    else if scancode == 0x1E { Some((0x61, 0x41)) }     // a A
    else if scancode == 0x1F { Some((0x73, 0x53)) }     // s S
    else if scancode == 0x20 { Some((0x64, 0x44)) }     // d D
    else if scancode == 0x21 { Some((0x66, 0x46)) }     // f F
    else if scancode == 0x22 { Some((0x67, 0x47)) }     // g G
    else if scancode == 0x23 { Some((0x68, 0x48)) }     // h H
    else if scancode == 0x24 { Some((0x6a, 0x4a)) }     // j J
    else if scancode == 0x25 { Some((0x6b, 0x4b)) }     // k K
    else if scancode == 0x26 { Some((0x6c, 0x4c)) }     // l L
    else if scancode == 0x27 { Some((0x3b, 0x3a)) }     // ; :
    else if scancode == 0x28 { Some((0x27, 0x22)) }     // ' "
    else if scancode == 0x29 { Some((0x60, 0x7e)) }     // ` ~
    else if scancode == 0x2B { Some((0x5c, 0x7c)) }     // \ |
    else if scancode == 0x2C { Some((0x7a, 0x5a)) }     // z Z
    else if scancode == 0x2D { Some((0x78, 0x58)) }     // x X
    else if scancode == 0x2E { Some((0x63, 0x43)) }     // c C
    else if scancode == 0x2F { Some((0x76, 0x56)) }     // v V
    else if scancode == 0x30 { Some((0x62, 0x42)) }     // b B
    else if scancode == 0x31 { Some((0x6e, 0x4e)) }     // n N
    else if scancode == 0x32 { Some((0x6d, 0x4d)) }     // m M
    else if scancode == 0x33 { Some((0x2c, 0x3c)) }     // , <
    else if scancode == 0x34 { Some((0x2e, 0x3e)) }     // . >
    else if scancode == 0x35 { Some((0x2f, 0x3f)) }     // / ?
    else if scancode == 0x39 { Some((0x20, 0x20)) }     // space
    else { None }
}

/// What a key types: the shifted or the unshifted byte of `key_bytes`.
pub open spec fn spec_scancode_to_char(scancode: u8, shift: bool) -> Option<u8> {
    match key_bytes(scancode) {
        Some(pair) => Some(if shift { pair.1 } else { pair.0 }),
        None => None,
    }
}

/// Maps a make code to the byte it types, with or without shift.
pub fn scancode_to_char(scancode: u8, shift: bool) -> (res: Option<u8>)
    ensures
        res == spec_scancode_to_char(scancode, shift),
{
    let (lo, hi): (u8, u8) = match scancode {
        0x02 => (0x31, 0x21),
        0x03 => (0x32, 0x40),
        0x04 => (0x33, 0x23),
        0x05 => (0x34, 0x24),
        0x06 => (0x35, 0x25),
        0x07 => (0x36, 0x5e),
        0x08 => (0x37, 0x26),
        0x09 => (0x38, 0x2a),
        0x0A => (0x39, 0x28),
        0x0B => (0x30, 0x29),
        0x0C => (0x2d, 0x5f),
        0x0D => (0x3d, 0x2b),
        0x0E => (0x08, 0x08),
        0x0F => (0x09, 0x09),
        0x10 => (0x71, 0x51),
        0x11 => (0x77, 0x57),
        0x12 => (0x65, 0x45),
        0x13 => (0x72, 0x52),
        0x14 => (0x74, 0x54),
        0x15 => (0x79, 0x59),
        0x16 => (0x75, 0x55),
        0x17 => (0x69, 0x49),
        0x18 => (0x6f, 0x4f),
        0x19 => (0x70, 0x50),
        0x1A => (0x5b, 0x7b),
        0x1B => (0x5d, 0x7d),
        0x1C => (0x0a, 0x0a),
        0x1E => (0x61, 0x41),
        0x1F => (0x73, 0x53),
        0x20 => (0x64, 0x44),
        0x21 => (0x66, 0x46),
        0x22 => (0x67, 0x47),
        0x23 => (0x68, 0x48),
        0x24 => (0x6a, 0x4a),
        0x25 => (0x6b, 0x4b),
        0x26 => (0x6c, 0x4c),
        0x27 => (0x3b, 0x3a),
        0x28 => (0x27, 0x22),
        0x29 => (0x60, 0x7e),
        0x2B => (0x5c, 0x7c),
        0x2C => (0x7a, 0x5a),
        0x2D => (0x78, 0x58),
        0x2E => (0x63, 0x43),
        0x2F => (0x76, 0x56),
        0x30 => (0x62, 0x42),
        0x31 => (0x6e, 0x4e),
        0x32 => (0x6d, 0x4d),
        0x33 => (0x2c, 0x3c),
        0x34 => (0x2e, 0x3e),
        0x35 => (0x2f, 0x3f),
        0x39 => (0x20, 0x20),
        _ => return None,
    };
    Some(if shift { hi } else { lo })
}

} // verus!
