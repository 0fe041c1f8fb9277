//! In-memory XM2w firmware emulator.
//!
//! Replicates the real device's configuration behavior (mapped by hardware sweeps):
//!   `[0xA1][0x12]`                  -> the full 8192-byte config blob
//!   `[0xA1][0x02]`                  -> firmware version response
//!   `[0xA1][0x13]`                  -> factory reset
//!   `[0xA1][0x14 0x0F 0x1C]` + 32B  -> sensor/CPI block and its mirrors
//!   `[0xA1][0x15 0x0F 0x1C]` + 28B  -> B region (10B) and C region (3B)
//!   `[0xA1][0x16 0x0F 0x1C]` part 1/2 -> cfg[0x47..0x63] / cfg[0x63..0x7F]
//!                                     and mirror A (+0x404), B (0x814) and C chunks
//!   any other button part           -> the B region (0x814..0x830) only
//!   `[0xA0]` writes                 -> ignored, as the real device does
//!
//! It also simulates physical button presses: `press(slot)` describes what the
//! slot's binding does.

use vstd::prelude::*;
use vstd::slice::{slice_subrange, slice_to_vec};

use super::layout::{
    button_offset, button_slot_of, copy_into, lemma_button_slot, lemma_record_index, overwrite,
    spec_button_offset, BUTTON_AREA_END, BUTTON_AREA_START, BUTTON_COUNT, MAP_CPI_LOOP, MAP_MOUSE,
    MAP_SCROLL, MOUSE_BACK, MOUSE_FORWARD, MOUSE_LEFT, MOUSE_MIDDLE, MOUSE_RIGHT, OFF_CPIS, OFF_CPI_LEVELS, OFF_DIVIDER, OFF_FLAGS, OFF_LOD, OFF_MOTION,
    SCROLL_DOWN, SCROLL_UP,
};
use super::settings::{binding, cpi_byte, ButtonView, CpiLevel};
use super::text::{decimal, interpret_slot, push_decimal, spec_interpret_slot};
use super::Transport;

verus! {

pub const BLOB_SIZE: usize = 8192;
pub const FW_MAJOR: u8 = 0x10;
pub const FW_MINOR: u8 = 0x01;

/// The factory DPI levels (X = Y, not split): 400, 800, 1600, 3200.
pub open spec fn spec_factory_cpi(i: int) -> u16 {
    if i == 0 {
        400
    } else if i == 1 {
        800
    } else if i == 2 {
        1600
    } else {
        3200
    }
}

/// Factory DPI level `i`.
pub fn factory_cpi(i: usize) -> (cpi: u16)
    requires
        i < 4,
    ensures
        cpi == spec_factory_cpi(i as int),
{
    if i == 0 {
        400
    } else if i == 1 {
        800
    } else if i == 2 {
        1600
    } else {
        3200
    }
}

/// The factory binding of button slot `slot`. Left's struct has debounce 0
/// because it lies outside the writable region.
pub open spec fn factory_button(slot: int) -> ButtonView {
    if slot == 0 {
        ButtonView { kind: MAP_MOUSE, value: seq![MOUSE_LEFT, 0u8, 0u8, 0u8, 0u8], debounce: 0 }
    } else if slot == 1 {
        binding(MAP_MOUSE, MOUSE_RIGHT, 0)
    } else if slot == 2 {
        binding(MAP_MOUSE, MOUSE_MIDDLE, 0)
    } else if slot == 3 {
        binding(MAP_MOUSE, MOUSE_BACK, 0)
    } else if slot == 4 {
        binding(MAP_MOUSE, MOUSE_FORWARD, 0)
    } else if slot == 5 {
        binding(MAP_CPI_LOOP, 0xF1, 0)
    } else if slot == 6 {
        binding(MAP_SCROLL, SCROLL_UP, 0)
    } else {
        binding(MAP_SCROLL, SCROLL_DOWN, 0)
    }
}

/// Byte `i` of the factory blob: a header and sensor bytes (4000 Hz, slam
/// click and jitter, lift-off distance 1, four DPI levels), the factory DPI
/// levels at `OFF_CPIS`, the factory button structs, and zero everywhere else.
pub open spec fn factory_byte(i: int) -> u8 {
    if i == 0 {
        0xA1
    } else if i == 1 {
        0x01
    } else if i == 0x11 {
        0x80
    } else if i == 0x13 {
        0x03
    } else if i == 0x14 {
        0x01
    } else if i == 0x15 {
        0x02
    } else if i == 0x16 {
        0x11
    } else if i == 0x20 {
        0xFF
    } else if i == 0x21 {
        0x02
    } else if i == 0x22 {
        0x11
    } else if i == OFF_LOD || i == 0x25 {
        0x01
    } else if i == OFF_CPI_LEVELS || i == 0x30 {
        0x04
    } else if OFF_CPIS <= i < OFF_CPIS + 20 {
        let c = spec_factory_cpi((i - OFF_CPIS) / 5);
        cpi_byte(CpiLevel { split: false, x: c, y: c }, (i - OFF_CPIS) % 5)
    } else if BUTTON_AREA_START <= i < BUTTON_AREA_END {
        factory_button(button_slot_of(i)).bytes()[(i - BUTTON_AREA_START) % 7]
    } else {
        0
    }
}

pub open spec fn spec_factory_blob() -> Seq<u8> {
    Seq::new(BLOB_SIZE as nat, |i: int| factory_byte(i))
}

/// Writes a button struct `[kind][v0][0][0][0][0][debounce]` at `off`.
fn write_binding(b: &mut [u8; BLOB_SIZE], off: usize, kind: u8, v0: u8, debounce: u8)
    requires
        off + 7 <= BLOB_SIZE,
    ensures
        final(b)@ == overwrite(old(b)@, off as int, seq![kind, v0, 0u8, 0u8, 0u8, 0u8, debounce]),
{
    b[off] = kind;
    b[off + 1] = v0;
    b[off + 2] = 0;
    b[off + 3] = 0;
    b[off + 4] = 0;
    b[off + 5] = 0;
    b[off + 6] = debounce;
    assert(b@ =~= overwrite(old(b)@, off as int, seq![kind, v0, 0u8, 0u8, 0u8, 0u8, debounce]));
}

/// The blob of a device fresh from the factory.
pub fn factory_blob() -> (b: [u8; BLOB_SIZE])
    ensures
        b@ == spec_factory_blob(),
{
    let mut b = [0u8; BLOB_SIZE];
    assert(forall|p: int| 0 <= p < BLOB_SIZE ==> b@[p] == 0) by {
        broadcast use vstd::array::group_array_axioms;
    }
    b[0] = 0xA1;
    b[1] = 0x01;
    b[0x11] = 0x80;
    b[0x13] = 0x03;
    b[0x14] = 0x01;
    b[0x15] = 0x02;
    b[0x16] = 0x11;
    b[0x20] = 0xFF;
    b[0x21] = 0x02;  // divider 2 = 4000 Hz
    b[0x22] = 0x11;  // flags: slamclick + jitter
    b[0x25] = 0x01;
    b[0x30] = 0x04;
    b[OFF_LOD] = 0x01;  // LOD
    b[OFF_CPI_LEVELS] = 0x04;  // cpi_levels
    let ghost head = b@;
    assert forall|p: int| 0 <= p < BLOB_SIZE && !(BUTTON_AREA_START <= p < BUTTON_AREA_END) implies (
    #[trigger] head[p]) == (if OFF_CPIS <= p < OFF_CPIS + 20 {
        0
    } else {
        factory_byte(p)
    }) by {}
    let mut i: usize = 0;
    while i < 4
        invariant
            i <= 4,
            b@.len() == BLOB_SIZE,
            head.len() == BLOB_SIZE,
            forall|p: int| OFF_CPIS <= p < OFF_CPIS + 20 ==> #[trigger] head[p] == 0,
            forall|p: int|
                0 <= p < BLOB_SIZE ==> #[trigger] b@[p] == (if OFF_CPIS <= p < OFF_CPIS + 5 * i {
                    factory_byte(p)
                } else {
                    head[p]
                }),
        decreases 4 - i,
    {
        let cpi = factory_cpi(i);
        let base = OFF_CPIS + i * 5;
        b[base + 1] = (cpi % 256) as u8;
        b[base + 2] = (cpi / 256) as u8;
        b[base + 3] = (cpi % 256) as u8;
        b[base + 4] = (cpi / 256) as u8;
        assert forall|p: int| 0 <= p < BLOB_SIZE implies #[trigger] b@[p] == (if OFF_CPIS <= p < OFF_CPIS
            + 5 * (i + 1) {
            factory_byte(p)
        } else {
            head[p]
        }) by {
            if base <= p < base + 5 {
                lemma_record_index(OFF_CPIS as int, p, i as int);
            }
        }
        i = i + 1;
    }
    let ghost mid = b@;
    // button structs at their slots' offsets; Left (0x7F) keeps debounce 0
    write_binding(&mut b, 0x7F, MAP_MOUSE, MOUSE_LEFT, 0);
    write_binding(&mut b, 0x4E, MAP_MOUSE, MOUSE_RIGHT, 8);
    write_binding(&mut b, 0x55, MAP_MOUSE, MOUSE_MIDDLE, 8);
    write_binding(&mut b, 0x5C, MAP_MOUSE, MOUSE_BACK, 8);
    write_binding(&mut b, 0x63, MAP_MOUSE, MOUSE_FORWARD, 8);
    write_binding(&mut b, 0x6A, MAP_CPI_LOOP, 0xF1, 8);
    write_binding(&mut b, 0x71, MAP_SCROLL, SCROLL_UP, 8);
    write_binding(&mut b, 0x78, MAP_SCROLL, SCROLL_DOWN, 8);
    assert forall|p: int| 0 <= p < BLOB_SIZE implies #[trigger] b@[p] == factory_byte(p) by {
        if BUTTON_AREA_START <= p < BUTTON_AREA_END {
            lemma_button_slot(p, button_slot_of(p));
            let slot = button_slot_of(p);
            assert(factory_button(slot).value.len() == 5);
        }
    }
    assert(b@ =~= spec_factory_blob());
    b
}


/// Four 7-byte chunks of `block`, taken at source stride `stride`, written at
/// destination stride 8 from `base` (the device's C region layout).
pub open spec fn chunked(b: Seq<u8>, base: int, block: Seq<u8>, stride: int) -> Seq<u8> {
    let c0 = overwrite(b, base, block.subrange(0, 7));
    let c1 = overwrite(c0, base + 8, block.subrange(stride, stride + 7));
    let c2 = overwrite(c1, base + 16, block.subrange(2 * stride, 2 * stride + 7));
    overwrite(c2, base + 24, block.subrange(3 * stride, 3 * stride + 7))
}

/// The blob after a sensor/CPI block write: `block[0..5]` to 0x17, `block[6]` to
/// 0x1E, `block[7]` to 0x1D, `block[8..28]` to 0x33, the mirrors at 0x41B and
/// 0x437, `block[0..28]` to the B region at 0x814, and `block[0..28]` in C
/// chunks of 7, 7, 7 and 4 bytes at 8-byte stride from 0x90C. `block[28..32]`
/// is ignored.
pub open spec fn sensor_image(b: Seq<u8>, block: Seq<u8>) -> Seq<u8> {
    let b1 = overwrite(b, 0x17, block.subrange(0, 5));
    let b2 = b1.update(0x1E, block[6]);
    let b3 = b2.update(0x1D, block[7]);
    let b4 = overwrite(b3, 0x33, block.subrange(8, 28));
    let b5 = overwrite(b4, 0x41B, block.subrange(0, 5));
    let b6 = overwrite(b5, 0x437, block.subrange(8, 28));
    let b7 = overwrite(b6, 0x814, block.subrange(0, 28));
    let c0 = overwrite(b7, 0x90C, block.subrange(0, 7));
    let c1 = overwrite(c0, 0x914, block.subrange(8, 15));
    let c2 = overwrite(c1, 0x91C, block.subrange(16, 23));
    overwrite(c2, 0x924, block.subrange(24, 28))
}

/// Main-region offset of button part 1 or 2.
pub open spec fn part_offset(part: u8) -> int {
    if part == 1 {
        0x47
    } else {
        0x63
    }
}

/// C-region offset of button part 1 or 2.
pub open spec fn part_chunk_base(part: u8) -> int {
    if part == 1 {
        0x92E
    } else {
        0x94E
    }
}

/// The blob after a 28-byte button part write. Parts 1 and 2 land in the main
/// region, mirror A (+0x404), the B region and the C chunks; any other part
/// only in the B region.
pub open spec fn button_part_image(b: Seq<u8>, part: u8, block: Seq<u8>) -> Seq<u8> {
    if part == 1 || part == 2 {
        let src = part_offset(part);
        let m = overwrite(b, src, block);
        let a = overwrite(m, src + 0x404, block);
        let bb = overwrite(a, 0x814, block);
        chunked(bb, part_chunk_base(part), block, 7)
    } else {
        overwrite(b, 0x814, block)
    }
}

/// The blob after a `0x15` write: 10 bytes to the B region, 3 to the C region.
pub open spec fn write15_image(b: Seq<u8>, block: Seq<u8>) -> Seq<u8> {
    overwrite(overwrite(b, 0x814, block.subrange(0, 10)), 0x909, block.subrange(10, 13))
}

/// The firmware version reply: 64 bytes, `[0xA1][0x01]`, major at 17, minor at 18.
pub open spec fn spec_fw_response() -> Seq<u8> {
    Seq::new(
        64,
        |i: int|
            if i == 0 {
                0xA1u8
            } else if i == 1 {
                0x01u8
            } else if i == 17 {
                FW_MAJOR
            } else if i == 18 {
                FW_MINOR
            } else {
                0u8
            },
    )
}

/// The emulator's state: the 8192-byte blob and the reply queued for the next read.
pub struct EmuView {
    pub blob: Seq<u8>,
    pub pending: Seq<u8>,
}

/// The state of a freshly reset emulator.
pub open spec fn factory_state() -> EmuView {
    EmuView { blob: spec_factory_blob(), pending: Seq::empty() }
}

/// Whether `p` starts with the 3-byte command `c0 c1 c2`.
pub open spec fn has_command(p: Seq<u8>, c0: u8, c1: u8, c2: u8) -> bool {
    p.len() >= 3 && p[0] == c0 && p[1] == c1 && p[2] == c2
}

/// The emulator's state after the host sends feature report `report_id` with `p`
/// (the host's buffer minus the report-id byte: command at `p[0..3]`, part at
/// `p[5]`, block from `p[15]`).
pub open spec fn spec_set_feature(e: EmuView, report_id: u8, p: Seq<u8>) -> EmuView {
    if report_id != 0xA1 {
        e
    } else if has_command(p, 0x16, 0x0F, 0x1C) {
        if p.len() >= 43 {
            EmuView { blob: button_part_image(e.blob, p[5], p.subrange(15, 43)), pending: e.pending }
        } else {
            e
        }
    } else if has_command(p, 0x14, 0x0F, 0x1C) {
        if p.len() >= 47 {
            EmuView { blob: sensor_image(e.blob, p.subrange(15, 47)), pending: e.pending }
        } else {
            e
        }
    } else if has_command(p, 0x15, 0x0F, 0x1C) {
        if p.len() >= 43 {
            EmuView { blob: write15_image(e.blob, p.subrange(15, 43)), pending: e.pending }
        } else {
            e
        }
    } else if p.len() >= 1 && p[0] == 0x13 {
        factory_state()
    } else if p.len() >= 1 && p[0] == 0x02 {
        EmuView { blob: e.blob, pending: spec_fw_response() }
    } else if p.len() >= 1 && p[0] == 0x12 {
        EmuView { blob: e.blob, pending: e.blob }
    } else {
        e
    }
}

/// What a feature-report read of at most `size` bytes returns: the queued
/// reply if there is one, else the blob, cut to `size` bytes.
pub open spec fn spec_get_feature(e: EmuView, size: nat) -> Seq<u8> {
    let src = if e.pending.len() > 0 { e.pending } else { e.blob };
    if size < src.len() {
        src.take(size as int)
    } else {
        src
    }
}

/// The text of the error for a button slot out of range.
pub open spec fn slot_error(slot: nat) -> Seq<char> {
    "slot "@ + decimal(slot) + " out of range"@
}

/// An emulated XM2w: the configuration blob and the reply to the last read command.
pub struct EmuTransport {
    pub blob: [u8; BLOB_SIZE],
    pub pending: Vec<u8>,
}

impl View for EmuTransport {
    type V = EmuView;

    open spec fn view(&self) -> EmuView {
        EmuView { blob: self.blob@, pending: self.pending@ }
    }
}

impl EmuTransport {
    /// A device fresh from the factory.
    pub fn new() -> (e: Self)
        ensures
            e@ == factory_state(),
    {
        EmuTransport { blob: factory_blob(), pending: Vec::new() }
    }

    /// Restores the factory blob and drops any queued reply.
    pub fn factory_reset(&mut self)
        ensures
            final(self)@ == factory_state(),
    {
        self.blob = factory_blob();
        self.pending.clear();
        assert(self.pending@ =~= Seq::<u8>::empty());
    }

    /// Simulates pressing physical button `slot`: what its binding does.
    pub fn press(&mut self, slot: usize) -> (r: Result<String, String>)
        ensures
            final(self)@ == old(self)@,
            slot < BUTTON_COUNT ==> (r matches Ok(action) && action@ == spec_interpret_slot(
                old(self)@.blob.subrange(
                    spec_button_offset(slot as int),
                    spec_button_offset(slot as int) + 7,
                ),
            )),
            slot >= BUTTON_COUNT ==> (r matches Err(msg) && msg@ == slot_error(slot as nat)),
    {
        if slot >= 8 {
            let mut msg = String::from_str("slot ");
            push_decimal(&mut msg, slot as u64);
            msg.append(" out of range");
            return Err(msg);
        }
        let off = button_offset(slot);
        Ok(interpret_slot(slice_subrange(self.blob.as_slice(), off, off + 7)))
    }

    /// Writes a sensor/CPI block; the device ignores `block[28..32]`, and
    /// `block[5]` reaches only the B and C regions.
    pub fn write_sensor_block(&mut self, block: &[u8])
        requires
            block@.len() >= 28,
        ensures
            final(self)@ == (EmuView { blob: sensor_image(old(self)@.blob, block@), pending: old(self)@.pending }),
    {
        copy_into(&mut self.blob, 0x17, block, 0, 5);
        self.blob[0x1E] = block[6];
        self.blob[0x1D] = block[7];
        copy_into(&mut self.blob, 0x33, block, 8, 20);
        // mirrors
        copy_into(&mut self.blob, 0x41B, block, 0, 5);
        copy_into(&mut self.blob, 0x437, block, 8, 20);
        copy_into(&mut self.blob, 0x814, block, 0, 28);
        // C region: chunked writes at 8-byte stride; the last chunk stops at block[28]
        copy_into(&mut self.blob, 0x90C, block, 0, 7);
        copy_into(&mut self.blob, 0x914, block, 8, 7);
        copy_into(&mut self.blob, 0x91C, block, 16, 7);
        copy_into(&mut self.blob, 0x924, block, 24, 4);
    }

    /// Writes a 28-byte button part (1 or 2; other parts reach only the B region).
    pub fn write_button_part(&mut self, part: u8, block: &[u8])
        requires
            block@.len() == 28,
        ensures
            final(self)@ == (EmuView {
                blob: button_part_image(old(self)@.blob, part, block@),
                pending: old(self)@.pending,
            }),
    {
        assert(block@.subrange(0, 28) =~= block@);
        let src: usize = match part {
            1 => 0x47,
            2 => 0x63,
            _ => {
                copy_into(&mut self.blob, 0x814, block, 0, 28);
                return;
            },
        };
        copy_into(&mut self.blob, src, block, 0, 28);
        copy_into(&mut self.blob, src + 0x404, block, 0, 28);
        copy_into(&mut self.blob, 0x814, block, 0, 28);
        // C: 4 chunks of 7 bytes at 8-byte stride (block chunks at 7-byte stride)
        let c_base: usize = if part == 1 { 0x92E } else { 0x94E };
        copy_into(&mut self.blob, c_base, block, 0, 7);
        copy_into(&mut self.blob, c_base + 8, block, 7, 7);
        copy_into(&mut self.blob, c_base + 16, block, 14, 7);
        copy_into(&mut self.blob, c_base + 24, block, 21, 7);
    }

    /// `[0x15 0x0F 0x1C]`: 10 bytes to the B region and 3 bytes to the C region.
    pub fn write_15(&mut self, block: &[u8])
        requires
            block@.len() >= 13,
        ensures
            final(self)@ == (EmuView { blob: write15_image(old(self)@.blob, block@), pending: old(self)@.pending }),
    {
        copy_into(&mut self.blob, 0x814, block, 0, 10);
        copy_into(&mut self.blob, 0x909, block, 10, 3);
    }

    /// The reply to a firmware version request.
    pub fn fw_response(&self) -> (r: Vec<u8>)
        ensures
            r@ == spec_fw_response(),
    {
        let mut r: Vec<u8> = Vec::new();
        let mut i: usize = 0;
        while i < 64
            invariant
                i <= 64,
                r@.len() == i,
                forall|j: int| 0 <= j < i ==> #[trigger] r@[j] == 0,
            decreases 64 - i,
        {
            r.push(0u8);
            i = i + 1;
        }
        r.set(0, 0xA1);
        r.set(1, 0x01);
        r.set(17, FW_MAJOR);
        r.set(18, FW_MINOR);
        assert(r@ =~= spec_fw_response());
        r
    }
}

impl Transport for EmuTransport {
    /// The emulated device's state is the emulator's model.
    open spec fn device(&self) -> EmuView {
        self@
    }

    /// The firmware's response to a command: always success, next state `spec_set_feature`.
    open spec fn sent(&self, before: EmuView, report_id: u8, payload: Seq<u8>, r: Result<(), String>) -> bool {
        r is Ok && self@ == spec_set_feature(before, report_id, payload)
    }

    /// A read: always success with `spec_get_feature`, state unchanged.
    open spec fn read(&self, before: EmuView, report_id: u8, size: usize, r: Result<Vec<u8>, String>) -> bool {
        &&& self@ == before
        &&& r is Ok
        &&& r->Ok_0@ == spec_get_feature(before, size as nat)
    }

    /// Executes a command as the firmware does; writes that the device does
    /// not understand are ignored. Always succeeds.
    fn set_feature(&mut self, report_id: u8, payload: &[u8]) -> (r: Result<(), String>)
        ensures
            r is Ok,
            final(self)@ == spec_set_feature(old(self)@, report_id, payload@),
    {
        let n = payload.len();
        if report_id == 0xA1 {
            if n >= 3 && payload[0] == 0x16 && payload[1] == 0x0F && payload[2] == 0x1C {
                let part = if n > 5 { payload[5] } else { 0 };
                if n >= 15 + 28 {
                    self.write_button_part(part, slice_subrange(payload, 15, 43));
                }
            } else if n >= 3 && payload[0] == 0x14 && payload[1] == 0x0F && payload[2] == 0x1C {
                if n >= 15 + 32 {
                    self.write_sensor_block(slice_subrange(payload, 15, 47));
                }
            } else if n >= 3 && payload[0] == 0x15 && payload[1] == 0x0F && payload[2] == 0x1C {
                if n >= 15 + 28 {
                    self.write_15(slice_subrange(payload, 15, 43));
                }
            } else if n >= 1 && payload[0] == 0x13 {
                self.factory_reset();
            } else if n >= 1 && payload[0] == 0x02 {
                self.pending = self.fw_response();
            } else if n >= 1 && payload[0] == 0x12 {
                self.pending = slice_to_vec(self.blob.as_slice());
            }
        }
        Ok(())
    }

    /// Returns the queued reply if there is one (it stays queued), else the
    /// blob, cut to `size` bytes. Always succeeds and changes nothing.
    fn get_feature(&mut self, report_id: u8, size: usize) -> (r: Result<Vec<u8>, String>)
        ensures
            final(self)@ == old(self)@,
            r matches Ok(bytes) && bytes@ == spec_get_feature(old(self)@, size as nat),
    {
        let len = self.pending.len();
        if len > 0 {
            let n = if size < len { size } else { len };
            let r = Ok(slice_to_vec(slice_subrange(self.pending.as_slice(), 0, n)));
            assert(self@ == old(self)@);
            assert(r->Ok_0@ == spec_get_feature(old(self)@, size as nat));
            assert(self.read(old(self)@, report_id, size, r));
            return r;
        }
        let n = if size < BLOB_SIZE { size } else { BLOB_SIZE };
        let r = Ok(slice_to_vec(slice_subrange(self.blob.as_slice(), 0, n)));
        assert(self@ == old(self)@);
        assert(r->Ok_0@ == spec_get_feature(old(self)@, size as nat));
        assert(self.read(old(self)@, report_id, size, r));
        r
    }
}


/// Whether the emulator is switched on.
pub fn emu_enabled(emu: &Option<EmuTransport>) -> (on: bool)
    ensures
        on == emu.is_some(),
{
    emu.is_some()
}

/// Switches the emulator on (a fresh factory device) or off.
pub fn emu_set(emu: &mut Option<EmuTransport>, enabled: bool)
    ensures
        enabled ==> (*final(emu) matches Some(e) && e@ == factory_state()),
        !enabled ==> (*final(emu)).is_none(),
{
    if enabled {
        *emu = Some(EmuTransport::new());
    } else {
        *emu = None;
    }
}

/// A factory-reset command restores the factory state, whatever the state before.
pub proof fn lemma_reset_restores(e: EmuView)
    ensures
        spec_set_feature(e, 0xA1, seq![0x13u8]) == factory_state(),
{
}

/// After a read-config command, a read returns the blob (cut to the size asked for).
pub proof fn lemma_read_returns_blob(e: EmuView, size: nat)
    requires
        e.blob.len() == BLOB_SIZE,
    ensures
        spec_get_feature(spec_set_feature(e, 0xA1, seq![0x12u8]), size) == (if size < BLOB_SIZE {
            e.blob.take(size as int)
        } else {
            e.blob
        }),
{
}

/// After a firmware version command, a 64-byte read returns the version reply.
pub proof fn lemma_fw_reply(e: EmuView)
    ensures
        spec_get_feature(spec_set_feature(e, 0xA1, seq![0x02u8]), 64) == spec_fw_response(),
{
}

/// Whether byte `i` is written by a write of button part `part` (1 or 2).
pub open spec fn in_part_regions(part: u8, i: int) -> bool {
    let src = part_offset(part);
    let c = part_chunk_base(part);
    ||| src <= i < src + 28
    ||| src + 0x404 <= i < src + 0x404 + 28
    ||| 0x814 <= i < 0x830
    ||| c <= i < c + 7
    ||| c + 8 <= i < c + 15
    ||| c + 16 <= i < c + 23
    ||| c + 24 <= i < c + 31
}

/// A button part write can be read back from every region it reaches (the main
/// region, mirror A, the B region and each C chunk) and changes nothing else;
/// a part other than 1 and 2 reaches the B region only. Left's struct
/// (0x7F..0x86) never changes: Left is not rebindable.
pub proof fn lemma_button_part_readback(b: Seq<u8>, part: u8, block: Seq<u8>)
    requires
        b.len() == BLOB_SIZE,
        block.len() == 28,
    ensures
        button_part_image(b, part, block).len() == BLOB_SIZE,
        button_part_image(b, part, block).subrange(0x814, 0x830) == block,
        button_part_image(b, part, block).subrange(0x7F, 0x86) == b.subrange(0x7F, 0x86),
        (part == 1 || part == 2) ==> {
            let img = button_part_image(b, part, block);
            let src = part_offset(part);
            let c = part_chunk_base(part);
            &&& img.subrange(src, src + 28) == block
            &&& img.subrange(src + 0x404, src + 0x404 + 28) == block
            &&& img.subrange(c, c + 7) == block.subrange(0, 7)
            &&& img.subrange(c + 8, c + 15) == block.subrange(7, 14)
            &&& img.subrange(c + 16, c + 23) == block.subrange(14, 21)
            &&& img.subrange(c + 24, c + 31) == block.subrange(21, 28)
            &&& forall|i: int| 0 <= i < BLOB_SIZE && !in_part_regions(part, i) ==> #[trigger] img[i] == b[i]
        },
        !(part == 1 || part == 2) ==> forall|i: int|
            0 <= i < BLOB_SIZE && !(0x814 <= i < 0x830) ==> #[trigger] button_part_image(b, part, block)[i] == b[i],
{
    let img = button_part_image(b, part, block);
    assert(img.subrange(0x814, 0x830) =~= block);
    assert(img.subrange(0x7F, 0x86) =~= b.subrange(0x7F, 0x86));
    if part == 1 || part == 2 {
        let src = part_offset(part);
        let c = part_chunk_base(part);
        assert(img.subrange(src, src + 28) =~= block);
        assert(img.subrange(src + 0x404, src + 0x404 + 28) =~= block);
        assert(img.subrange(c, c + 7) =~= block.subrange(0, 7));
        assert(img.subrange(c + 8, c + 15) =~= block.subrange(7, 14));
        assert(img.subrange(c + 16, c + 23) =~= block.subrange(14, 21));
        assert(img.subrange(c + 24, c + 31) =~= block.subrange(21, 28));
    }
}

/// A sensor block write can be read back from the config area (`block[0..5]`
/// at 0x17, `block[7]` at 0x1D, `block[6]` at 0x1E, `block[8..28]` at 0x33)
/// and from the B region.
pub proof fn lemma_sensor_readback(b: Seq<u8>, block: Seq<u8>)
    requires
        b.len() == BLOB_SIZE,
        block.len() >= 28,
    ensures
        sensor_image(b, block).len() == BLOB_SIZE,
        sensor_image(b, block).subrange(0x17, 0x1C) == block.subrange(0, 5),
        sensor_image(b, block)[0x1D] == block[7],
        sensor_image(b, block)[0x1E] == block[6],
        sensor_image(b, block).subrange(0x33, 0x47) == block.subrange(8, 28),
        sensor_image(b, block).subrange(0x814, 0x830) == block.subrange(0, 28),
{
    let img = sensor_image(b, block);
    assert(img.subrange(0x17, 0x1C) =~= block.subrange(0, 5));
    assert(img.subrange(0x33, 0x47) =~= block.subrange(8, 28));
    assert(img.subrange(0x814, 0x830) =~= block.subrange(0, 28));
}


/// A sensor write depends on the first 28 bytes of the block only: the device
/// ignores `block[28..32]`.
pub proof fn lemma_sensor_ignores_tail(b: Seq<u8>, x: Seq<u8>, y: Seq<u8>)
    requires
        x.len() >= 28,
        y.len() >= 28,
        x.subrange(0, 28) == y.subrange(0, 28),
    ensures
        sensor_image(b, x) == sensor_image(b, y),
{
    assert forall|i: int| 0 <= i < 28 implies x[i] == y[i] by {
        assert(x.subrange(0, 28)[i] == x[i]);
        assert(y.subrange(0, 28)[i] == y[i]);
    }
    assert(x.subrange(0, 5) =~= y.subrange(0, 5));
    assert(x.subrange(8, 28) =~= y.subrange(8, 28));
    assert(x.subrange(0, 28) =~= y.subrange(0, 28));
    assert(x.subrange(0, 7) =~= y.subrange(0, 7));
    assert(x.subrange(8, 15) =~= y.subrange(8, 15));
    assert(x.subrange(16, 23) =~= y.subrange(16, 23));
    assert(x.subrange(24, 28) =~= y.subrange(24, 28));
}


/// No command the device understands changes the polling divider, the flags
/// byte or the motion-sync byte of the config, except a factory reset, which
/// restores the factory blob: the write commands reach none of these bytes.
pub proof fn lemma_divider_set_only_by_reset(e: EmuView, report_id: u8, p: Seq<u8>)
    requires
        e.blob.len() == BLOB_SIZE,
    ensures
        ({
            let after = spec_set_feature(e, report_id, p);
            ||| after.blob == spec_factory_blob()
            ||| {
                &&& after.blob[OFF_DIVIDER as int] == e.blob[OFF_DIVIDER as int]
                &&& after.blob[OFF_FLAGS as int] == e.blob[OFF_FLAGS as int]
                &&& after.blob[OFF_MOTION as int] == e.blob[OFF_MOTION as int]
            }
        }),
{
}


/// The factory defaults: divider 2 (4000 Hz) at 21, slam click and jitter
/// (0x11) at 22, lift-off distance 1 at 25, four DPI levels at 30 (and the
/// same values at 0x21, 0x22, 0x25 and 0x30), the DPI levels 400, 800, 1600
/// and 3200 (not split) at 51, and the default bindings: Right click at 0x4E,
/// Middle click at 0x55, Back at 0x5C, Forward at 0x63, DPI cycle at 0x6A,
/// scroll up at 0x71, scroll down at 0x78 (debounce 8), Left click at 0x7F
/// (debounce 0).
pub proof fn lemma_factory_defaults()
    ensures
        spec_factory_blob()[21] == 2,
        spec_factory_blob()[22] == 0x11,
        spec_factory_blob()[25] == 1,
        spec_factory_blob()[30] == 4,
        spec_factory_blob()[0x21] == 2,
        spec_factory_blob()[0x22] == 0x11,
        spec_factory_blob()[0x25] == 1,
        spec_factory_blob()[0x30] == 4,
        spec_factory_blob().subrange(51, 71) == seq![
            0u8, 0x90u8, 0x01u8, 0x90u8, 0x01u8,
            0u8, 0x20u8, 0x03u8, 0x20u8, 0x03u8,
            0u8, 0x40u8, 0x06u8, 0x40u8, 0x06u8,
            0u8, 0x80u8, 0x0Cu8, 0x80u8, 0x0Cu8,
        ],
        spec_factory_blob().subrange(0x4E, 0x55) == seq![0x00u8, 0x02u8, 0u8, 0u8, 0u8, 0u8, 8u8],
        spec_factory_blob().subrange(0x55, 0x5C) == seq![0x00u8, 0x04u8, 0u8, 0u8, 0u8, 0u8, 8u8],
        spec_factory_blob().subrange(0x5C, 0x63) == seq![0x00u8, 0x08u8, 0u8, 0u8, 0u8, 0u8, 8u8],
        spec_factory_blob().subrange(0x63, 0x6A) == seq![0x00u8, 0x10u8, 0u8, 0u8, 0u8, 0u8, 8u8],
        spec_factory_blob().subrange(0x6A, 0x71) == seq![0x09u8, 0xF1u8, 0u8, 0u8, 0u8, 0u8, 8u8],
        spec_factory_blob().subrange(0x71, 0x78) == seq![0x01u8, 0x01u8, 0u8, 0u8, 0u8, 0u8, 8u8],
        spec_factory_blob().subrange(0x78, 0x7F) == seq![0x01u8, 0xFFu8, 0u8, 0u8, 0u8, 0u8, 8u8],
        spec_factory_blob().subrange(0x7F, 0x86) == seq![0x00u8, 0x00u8, 0u8, 0u8, 0u8, 0u8, 0u8],
{
    let b = spec_factory_blob();
    assert(b.subrange(51, 71) =~= seq![
        0u8, 0x90u8, 0x01u8, 0x90u8, 0x01u8,
        0u8, 0x20u8, 0x03u8, 0x20u8, 0x03u8,
        0u8, 0x40u8, 0x06u8, 0x40u8, 0x06u8,
        0u8, 0x80u8, 0x0Cu8, 0x80u8, 0x0Cu8,
    ]);
    assert(b.subrange(0x4E, 0x55) =~= seq![0x00u8, 0x02u8, 0u8, 0u8, 0u8, 0u8, 8u8]);
    assert(b.subrange(0x55, 0x5C) =~= seq![0x00u8, 0x04u8, 0u8, 0u8, 0u8, 0u8, 8u8]);
    assert(b.subrange(0x5C, 0x63) =~= seq![0x00u8, 0x08u8, 0u8, 0u8, 0u8, 0u8, 8u8]);
    assert(b.subrange(0x63, 0x6A) =~= seq![0x00u8, 0x10u8, 0u8, 0u8, 0u8, 0u8, 8u8]);
    assert(b.subrange(0x6A, 0x71) =~= seq![0x09u8, 0xF1u8, 0u8, 0u8, 0u8, 0u8, 8u8]);
    assert(b.subrange(0x71, 0x78) =~= seq![0x01u8, 0x01u8, 0u8, 0u8, 0u8, 0u8, 8u8]);
    assert(b.subrange(0x78, 0x7F) =~= seq![0x01u8, 0xFFu8, 0u8, 0u8, 0u8, 0u8, 8u8]);
    assert(b.subrange(0x7F, 0x86) =~= seq![0x00u8, 0x00u8, 0u8, 0u8, 0u8, 0u8, 0u8]);
}

} // verus!
