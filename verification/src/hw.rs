//! What the system makes of its devices' registers: the PC speaker, the PS/2
//! controller with its keyboard and mouse, and the programmable interval
//! timer. The port reads and writes themselves belong to the caller.
use vstd::prelude::*;

verus! {

/// The input clock of the programmable interval timer, in Hz.
pub const PIT_HZ: u32 = 1193180;

/// The two divisor bytes, low then high, that make timer channel 2 sound
/// `freq` Hz; none for 0, which stays silent. The high byte keeps the low
/// eight bits of the divisor's upper part.
pub fn speaker_divisor(freq: u32) -> (res: Option<(u8, u8)>)
    ensures
        freq == 0 ==> res is None,
        freq != 0 ==> res == Some((((PIT_HZ / freq) % 256) as u8, ((PIT_HZ / freq) / 256 % 256) as u8)),
{
    if freq == 0 {
        return None;
    }
    let div: u32 = PIT_HZ / freq;
    let lo = (div & 0xFF) as u8;
    let hi = (div >> 8) as u8;
    assert(lo == div % 256) by (bit_vector)
        requires lo == (div & 0xFF) as u8;
    assert(hi == (div / 256) % 256) by (bit_vector)
        requires hi == (div >> 8) as u8;
    Some((lo, hi))
}

/// The speaker gate register with both speaker bits set: `None` when they
/// are set already and nothing needs writing.
pub fn speaker_on(gate: u8) -> (res: Option<u8>)
    ensures
        gate % 4 == 3 ==> res is None,
        gate % 4 != 3 ==> res == Some((gate - gate % 4 + 3) as u8),
{
    let low = gate & 3;
    assert(low == gate % 4) by (bit_vector)
        requires low == gate & 3;
    if low != 3 {
        let v = gate | 3;
        assert(v == gate - gate % 4 + 3) by (bit_vector)
            requires v == gate | 3;
        Some(v)
    } else {
        None
    }
}

/// The speaker gate register with both speaker bits cleared.
pub fn speaker_off(gate: u8) -> (res: u8)
    ensures
        res == gate - gate % 4,
{
    let v = gate & 0xFC;
    assert(v == gate - gate % 4) by (bit_vector)
        requires v == gate & 0xFC;
    v
}

/// A status byte of the controller says a byte waits in its output buffer
/// (bit 0) and whether it comes from the mouse (bit 5).
pub open spec fn output_full(status: u8) -> bool {
    status % 2 == 1
}

pub open spec fn from_mouse(status: u8) -> bool {
    (status / 32) % 2 == 1
}

/// A byte waits in the controller's output buffer.
pub fn output_ready(status: u8) -> (res: bool)
    ensures
        res == output_full(status),
{
    let full = (status & 1) != 0;
    assert(full == (status % 2 == 1)) by (bit_vector)
        requires full == ((status & 1) != 0);
    full
}

/// A keyboard byte waits to be read.
pub fn keyboard_ready(status: u8) -> (res: bool)
    ensures
        res == (output_full(status) && !from_mouse(status)),
{
    let full = (status & 1) != 0;
    let mouse = (status & 0x20) != 0;
    assert(full == (status % 2 == 1)) by (bit_vector)
        requires full == ((status & 1) != 0);
    assert(mouse == ((status / 32) % 2 == 1)) by (bit_vector)
        requires mouse == ((status & 0x20) != 0);
    full && !mouse
}

/// A mouse byte waits to be read.
pub fn mouse_ready(status: u8) -> (res: bool)
    ensures
        res == (output_full(status) && from_mouse(status)),
{
    let full = (status & 1) != 0;
    let mouse = (status & 0x20) != 0;
    assert(full == (status % 2 == 1)) by (bit_vector)
        requires full == ((status & 1) != 0);
    assert(mouse == ((status / 32) % 2 == 1)) by (bit_vector)
        requires mouse == ((status & 0x20) != 0);
    full && mouse
}

/// The controller's input buffer is full: a byte written now would be lost.
pub fn controller_busy(status: u8) -> (res: bool)
    ensures
        res == ((status / 2) % 2 == 1),
{
    let busy = (status & 2) != 0;
    assert(busy == ((status / 2) % 2 == 1)) by (bit_vector)
        requires busy == ((status & 2) != 0);
    busy
}

/// A mouse packet starts with a byte that has bit 3 set.
pub fn packet_start(flags: u8) -> (res: bool)
    ensures
        res == ((flags / 8) % 2 == 1),
{
    let set = (flags & 0x08) != 0;
    assert(set == ((flags / 8) % 2 == 1)) by (bit_vector)
        requires set == ((flags & 0x08) != 0);
    set
}

/// A movement byte of a mouse packet, read as a signed byte.
pub open spec fn signed_byte(b: u8) -> int {
    if b < 128 { b as int } else { b - 256 }
}

/// A mouse packet: the movement right and up, and the left and right
/// buttons (bits 0 and 1 of the first byte).
pub fn mouse_packet(flags: u8, bx: u8, by: u8) -> (res: (i32, i32, bool, bool))
    ensures
        res.0 == signed_byte(bx),
        res.1 == signed_byte(by),
        res.2 == (flags % 2 == 1),
        res.3 == ((flags / 2) % 2 == 1),
{
    let dx: i32 = if bx < 128 { bx as i32 } else { bx as i32 - 256 };
    let dy: i32 = if by < 128 { by as i32 } else { by as i32 - 256 };
    let left = (flags & 1) != 0;
    let right = (flags & 2) != 0;
    assert(left == (flags % 2 == 1)) by (bit_vector)
        requires left == ((flags & 1) != 0);
    assert(right == ((flags / 2) % 2 == 1)) by (bit_vector)
        requires right == ((flags & 2) != 0);
    (dx, dy, left, right)
}

/// The controller's configuration byte with the mouse interrupt (bit 1)
/// enabled.
pub fn with_mouse_irq(config: u8) -> (res: u8)
    ensures
        res == config - (config / 2) % 2 * 2 + 2,
{
    let v = config | 2;
    assert(v == config - (config / 2) % 2 * 2 + 2) by (bit_vector)
        requires v == config | 2;
    v
}

/// The count latched from timer channel 0: its low byte, then its high
/// byte.
pub fn pit_count(lo: u8, hi: u8) -> (res: u16)
    ensures
        res == hi * 256 + lo,
{
    let v: u16 = ((hi as u16) << 8) | (lo as u16);
    assert(v == hi * 256 + lo) by (bit_vector)
        requires v == ((hi as u16) << 8) | (lo as u16);
    v
}

/// The timer loaded with 1193 ticks has counted a millisecond down: the
/// count reached zero or wrapped round past the previous reading.
pub fn millisecond_over(count: u16, prev: u16) -> (res: bool)
    ensures
        res == (count == 0 || count > prev),
{
    count == 0 || count > prev
}

} // verus!
