//! Protocol constants and the byte layout of the 1041-byte configuration blob.
//!
//! Commands are feature reports on the vendor HID interface (usage page 0xFF01):
//! read config `[0xA1][0x12]`, firmware version `[0xA1][0x02]`, factory reset
//! `[0xA1][0x13]`, sensor write `[0xA1][0x14 0x0F 0x1C]` + 32-byte block and
//! buttons write `[0xA1][0x16 0x0F 0x1C]` + two 28-byte parts.
//!
//! A button is stored as a 7-byte struct `[kind][v0][v1][v2][v3][v4][debounce]`:
//! Right@0x4E Middle@0x55 Back@0x5C Forward@0x63 DPI@0x6A ScrollUp@0x71
//! ScrollDown@0x78, and Left@0x7F (outside the writable region).

use vstd::prelude::*;

verus! {

pub const VID: u16 = 0x3367;
pub const PID_MOUSE: u16 = 0x1968;

pub const CONFIG_SIZE: usize = 1041;
pub const CPI_COUNT: usize = 4;
pub const BUTTON_COUNT: usize = 8;

// config offsets (decimal)
pub const OFF_DIVIDER: usize = 21;
pub const OFF_FLAGS: usize = 22;
pub const OFF_LOD: usize = 25;
pub const OFF_ANGLE: usize = 26;
pub const OFF_RIPPLE: usize = 27;
pub const OFF_MOTION: usize = 28;
pub const OFF_CPI_LEVELS: usize = 30;
pub const OFF_CPIS: usize = 51;

pub const FLAG_SLAMCLICK: u8 = 0x01;
pub const FLAG_JITTER: u8 = 0x10;

// button mapping kinds
pub const MAP_MOUSE: u8 = 0x00;
pub const MAP_SCROLL: u8 = 0x01;
pub const MAP_KEYBOARD: u8 = 0x02;
pub const MAP_CPI_LOOP: u8 = 0x09;
pub const MAP_DISABLE: u8 = 0xFF;

// mouse action codes: 0=Left, 2=Right, 4=Middle, 8=Back, 0x10=Forward
pub const MOUSE_LEFT: u8 = 0x00;
pub const MOUSE_RIGHT: u8 = 0x02;
pub const MOUSE_MIDDLE: u8 = 0x04;
pub const MOUSE_BACK: u8 = 0x08;
pub const MOUSE_FORWARD: u8 = 0x10;

pub const SCROLL_UP: u8 = 0x01;
pub const SCROLL_DOWN: u8 = 0xFF;

/// First byte of the contiguous area that holds the eight 7-byte button structs.
pub const BUTTON_AREA_START: usize = 0x4E;
/// One past the last byte of the button area (Left's struct ends here).
pub const BUTTON_AREA_END: usize = 0x86;

/// Offset of the struct of button slot `slot`
/// (0=Left, 1=Right, 2=Middle, 3=Back, 4=Forward, 5=DPI, 6=ScrollUp, 7=ScrollDown).
pub open spec fn spec_button_offset(slot: int) -> int {
    if slot == 0 {
        0x7F
    } else {
        0x4E + 7 * (slot - 1)
    }
}

/// The button slot whose struct holds byte `p` of the button area.
pub open spec fn button_slot_of(p: int) -> int {
    let k = (p - 0x4E) / 7;
    if k == 7 {
        0
    } else {
        k + 1
    }
}

/// Offset of the struct of button slot `slot`.
pub fn button_offset(slot: usize) -> (off: usize)
    requires
        slot < BUTTON_COUNT,
    ensures
        off == spec_button_offset(slot as int),
{
    if slot == 0 {
        0x7F
    } else {
        0x4E + 7 * (slot - 1)
    }
}

/// Byte `p` of the button area belongs to exactly one slot, at a fixed distance
/// from that slot's offset.
pub proof fn lemma_button_slot(p: int, slot: int)
    requires
        BUTTON_AREA_START <= p < BUTTON_AREA_END,
        0 <= slot < BUTTON_COUNT,
    ensures
        0 <= button_slot_of(p) < BUTTON_COUNT,
        (button_slot_of(p) == slot) <==> (spec_button_offset(slot) <= p < spec_button_offset(slot) + 7),
        p - spec_button_offset(button_slot_of(p)) == (p - BUTTON_AREA_START) % 7,
{
    let q = p - 0x4E;
    assert(0 <= q < 56);
    assert(q / 7 == 0 || q / 7 == 1 || q / 7 == 2 || q / 7 == 3 || q / 7 == 4 || q / 7 == 5
        || q / 7 == 6 || q / 7 == 7);
    assert(7 * (q / 7) + q % 7 == q && 0 <= q % 7 < 7) by (nonlinear_arith)
        requires 0 <= q;
}

/// Byte `p` of a run of 5-byte records starting at `start` lies in record `i`
/// exactly when `(p - start) / 5 == i`.
pub proof fn lemma_record_index(start: int, p: int, i: int)
    requires
        0 <= i,
        start + 5 * i <= p < start + 5 * i + 5,
    ensures
        (p - start) / 5 == i,
        (p - start) % 5 == p - start - 5 * i,
{
    let q = p - start;
    assert(q / 5 == i && q % 5 == q - 5 * i) by (nonlinear_arith)
        requires 5 * i <= q < 5 * i + 5, 0 <= i;
}

/// `s` with `data` written over it starting at `off` (positions past the end of `s` are dropped).
pub open spec fn overwrite<T>(s: Seq<T>, off: int, data: Seq<T>) -> Seq<T> {
    Seq::new(s.len(), |i: int| if off <= i < off + data.len() { data[i - off] } else { s[i] })
}

/// Copies `src[from..from + len]` into `dst[at..at + len]`.
pub fn copy_into<const N: usize>(dst: &mut [u8; N], at: usize, src: &[u8], from: usize, len: usize)
    requires
        at + len <= N,
        from + len <= src@.len(),
    ensures
        final(dst)@ == overwrite(old(dst)@, at as int, src@.subrange(from as int, from + len)),
{
    let src_len = src.len();
    let mut k: usize = 0;
    while k < len
        invariant
            src_len == src@.len(),
            k <= len,
            at + len <= N,
            from + len <= src@.len(),
            dst@.len() == N,
            old(dst)@.len() == N,
            forall|i: int|
                0 <= i < N ==> #[trigger] dst@[i] == (if at <= i < at + k {
                    src@[from + i - at]
                } else {
                    old(dst)@[i]
                }),
        decreases len - k,
    {
        dst[at + k] = src[from + k];
        k = k + 1;
    }
    assert(dst@ =~= overwrite(old(dst)@, at as int, src@.subrange(from as int, from + len)));
}

} // verus!
