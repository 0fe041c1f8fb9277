//! User-facing settings and their encoding in the configuration blob.

use vstd::prelude::*;

use super::layout::{
    button_offset, button_slot_of, lemma_button_slot, lemma_record_index, overwrite, spec_button_offset, BUTTON_AREA_END,
    BUTTON_AREA_START, BUTTON_COUNT, CONFIG_SIZE, CPI_COUNT, FLAG_JITTER, FLAG_SLAMCLICK,
    MAP_CPI_LOOP, MAP_DISABLE, MAP_KEYBOARD, MAP_MOUSE, MAP_SCROLL, OFF_ANGLE, OFF_CPIS,
    OFF_CPI_LEVELS, OFF_DIVIDER, OFF_FLAGS, OFF_LOD, OFF_MOTION, OFF_RIPPLE,
};

verus! {

/// One DPI level: X and Y resolution, and whether they are set separately.
#[derive(Debug, Clone, Copy)]
pub struct CpiLevel {
    pub x: u16,
    pub y: u16,
    pub split: bool,
}

/// One button binding as stored on the device.
#[derive(Debug, Clone, Copy)]
pub struct ButtonCfg {
    pub debounce: u8,
    pub kind: u8,
    pub value: [u8; 5],
}

/// The mathematical model of a button binding.
pub struct ButtonView {
    pub kind: u8,
    pub value: Seq<u8>,
    pub debounce: u8,
}

impl ButtonView {
    /// The 7-byte device struct `[kind][v0][v1][v2][v3][v4][debounce]`.
    pub open spec fn bytes(self) -> Seq<u8> {
        seq![self.kind] + self.value + seq![self.debounce]
    }
}

impl View for ButtonCfg {
    type V = ButtonView;

    open spec fn view(&self) -> ButtonView {
        ButtonView { kind: self.kind, value: self.value@, debounce: self.debounce }
    }
}

/// The button struct stored at `off` in `blob`.
pub open spec fn button_view_at(blob: Seq<u8>, off: int) -> ButtonView {
    ButtonView { kind: blob[off], value: blob.subrange(off + 1, off + 6), debounce: blob[off + 6] }
}

/// A binding with the default debounce (8) and the given kind and first value bytes.
pub open spec fn binding(kind: u8, v0: u8, v1: u8) -> ButtonView {
    ButtonView { kind, value: seq![v0, v1, 0u8, 0u8, 0u8], debounce: 8 }
}

/// The device code of the key with HID usage `usage`: the usage minus one,
/// modulo 256 (the device's key table is shifted by one).
pub open spec fn device_key_code(usage: u8) -> u8 {
    ((usage + 255) % 256) as u8
}

impl ButtonCfg {
    /// A mouse-button binding (`key` is one of the `MOUSE_*` codes).
    pub fn mouse(key: u8) -> (b: Self)
        ensures
            b@ == binding(MAP_MOUSE, key, 0),
    {
        let mut value = [0u8; 5];
        value[0] = key;
        let b = Self { debounce: 8, kind: MAP_MOUSE, value };
        assert(b@.value =~= seq![key, 0u8, 0u8, 0u8, 0u8]);
        b
    }

    /// A scroll binding (`dir` is `SCROLL_UP` or `SCROLL_DOWN`).
    pub fn scroll(dir: u8) -> (b: Self)
        ensures
            b@ == binding(MAP_SCROLL, dir, 0),
    {
        let mut value = [0u8; 5];
        value[0] = dir;
        let b = Self { debounce: 8, kind: MAP_SCROLL, value };
        assert(b@.value =~= seq![dir, 0u8, 0u8, 0u8, 0u8]);
        b
    }

    /// A keyboard binding: modifier bits (1=Ctrl, 2=Shift, 4=Alt, 8=Win) and the
    /// key's HID usage. The device stores keyboard codes as HID usage minus one.
    pub fn key(mods: u8, usage: u8) -> (b: Self)
        ensures
            b@ == binding(MAP_KEYBOARD, mods, device_key_code(usage)),
    {
        let code: u8 = if usage == 0 { 0xFF } else { usage - 1 };
        let mut value = [0u8; 5];
        value[0] = mods;
        value[1] = code;
        let b = Self { debounce: 8, kind: MAP_KEYBOARD, value };
        assert(b@.value =~= seq![mods, code, 0u8, 0u8, 0u8]);
        b
    }

    /// A DPI-cycle binding.
    pub fn cpi_loop() -> (b: Self)
        ensures
            b@ == binding(MAP_CPI_LOOP, 0, 0),
    {
        let b = Self { debounce: 8, kind: MAP_CPI_LOOP, value: [0;5] };
        assert(b@.value =~= seq![0u8, 0u8, 0u8, 0u8, 0u8]);
        b
    }

    /// A binding that disables the button.
    pub fn disabled() -> (b: Self)
        ensures
            b@ == binding(MAP_DISABLE, 0, 0),
    {
        let b = Self { debounce: 8, kind: MAP_DISABLE, value: [0;5] };
        assert(b@.value =~= seq![0u8, 0u8, 0u8, 0u8, 0u8]);
        b
    }

    /// Reads the button struct at `off`.
    pub fn from_blob(b: &[u8; CONFIG_SIZE], off: usize) -> (r: Self)
        requires
            off + 7 <= CONFIG_SIZE,
        ensures
            r@ == button_view_at(b@, off as int),
    {
        let mut value = [0u8; 5];
        value[0] = b[off + 1];
        value[1] = b[off + 2];
        value[2] = b[off + 3];
        value[3] = b[off + 4];
        value[4] = b[off + 5];
        let r = Self { debounce: b[off + 6], kind: b[off], value };
        assert(r@.value =~= b@.subrange(off + 1, off + 6));
        r
    }

    /// Writes this binding's struct at `off`.
    pub fn to_blob(&self, b: &mut [u8; CONFIG_SIZE], off: usize)
        requires
            off + 7 <= CONFIG_SIZE,
        ensures
            final(b)@ == overwrite(old(b)@, off as int, self@.bytes()),
    {
        b[off] = self.kind;
        b[off + 1] = self.value[0];
        b[off + 2] = self.value[1];
        b[off + 3] = self.value[2];
        b[off + 4] = self.value[3];
        b[off + 5] = self.value[4];
        b[off + 6] = self.debounce;
        assert(b@ =~= overwrite(old(b)@, off as int, self@.bytes()));
    }
}

/// Everything the application reads from and writes to the device.
#[derive(Debug, Clone)]
pub struct DeviceSettings {
    pub polling_hz: u32,
    pub lod: u8,
    pub slamclick: bool,
    pub jitter: bool,
    pub angle_snapping: bool,
    pub ripple: bool,
    pub motion_sync: bool,
    pub cpi_levels: u8,
    pub cpis: Vec<CpiLevel>,
    pub buttons: Vec<ButtonCfg>,
}

/// The mathematical model of `DeviceSettings`.
pub struct SettingsView {
    pub polling_hz: u32,
    pub lod: u8,
    pub slamclick: bool,
    pub jitter: bool,
    pub angle_snapping: bool,
    pub ripple: bool,
    pub motion_sync: bool,
    pub cpi_levels: u8,
    pub cpis: Seq<CpiLevel>,
    pub buttons: Seq<ButtonView>,
}

impl View for DeviceSettings {
    type V = SettingsView;

    open spec fn view(&self) -> SettingsView {
        SettingsView {
            polling_hz: self.polling_hz,
            lod: self.lod,
            slamclick: self.slamclick,
            jitter: self.jitter,
            angle_snapping: self.angle_snapping,
            ripple: self.ripple,
            motion_sync: self.motion_sync,
            cpi_levels: self.cpi_levels,
            cpis: self.cpis@,
            buttons: self.buttons@.map_values(|b: ButtonCfg| b@),
        }
    }
}

/// The raw configuration blob as read from the device.
pub struct Config {
    pub blob: [u8; CONFIG_SIZE],
}

/// Polling rate in Hz for a divider byte.
pub open spec fn spec_divider_to_hz(d: u8) -> u32 {
    if d == 1 {
        8000
    } else if d == 2 {
        4000
    } else if d == 4 {
        2000
    } else {
        1000
    }
}

/// Divider byte for a polling rate in Hz.
pub open spec fn spec_hz_to_divider(hz: u32) -> u8 {
    if hz == 8000 {
        1
    } else if hz == 4000 {
        2
    } else if hz == 2000 {
        4
    } else {
        8
    }
}

/// The polling rates the device supports.
pub open spec fn is_supported_rate(hz: u32) -> bool {
    hz == 1000 || hz == 2000 || hz == 4000 || hz == 8000
}

/// The 16-bit value stored little-endian as `lo`, `hi`.
pub open spec fn le16(lo: u8, hi: u8) -> u16 {
    (lo + 256 * hi) as u16
}

/// The DPI level stored as 5 bytes `[split][x lo][x hi][y lo][y hi]` at `base`.
pub open spec fn cpi_at(blob: Seq<u8>, base: int) -> CpiLevel {
    CpiLevel {
        split: blob[base] != 0,
        x: le16(blob[base + 1], blob[base + 2]),
        y: le16(blob[base + 3], blob[base + 4]),
    }
}

/// Byte `r` of the 5-byte encoding of a DPI level.
pub open spec fn cpi_byte(c: CpiLevel, r: int) -> u8 {
    if r == 0 {
        bool_byte(c.split)
    } else if r == 1 {
        (c.x % 256) as u8
    } else if r == 2 {
        (c.x / 256) as u8
    } else if r == 3 {
        (c.y % 256) as u8
    } else {
        (c.y / 256) as u8
    }
}

pub open spec fn bool_byte(b: bool) -> u8 {
    if b {
        1
    } else {
        0
    }
}

/// The flags byte after setting the slam-click and jitter bits, other bits kept.
pub open spec fn flags_byte(old: u8, slamclick: bool, jitter: bool) -> u8 {
    let kept = old & !(FLAG_SLAMCLICK | FLAG_JITTER);
    let with_slam = if slamclick { kept | FLAG_SLAMCLICK } else { kept };
    if jitter { with_slam | FLAG_JITTER } else { with_slam }
}

/// The settings that a configuration blob encodes.
pub open spec fn spec_read_settings(blob: Seq<u8>) -> SettingsView {
    SettingsView {
        polling_hz: spec_divider_to_hz(blob[OFF_DIVIDER as int]),
        lod: blob[OFF_LOD as int],
        slamclick: blob[OFF_FLAGS as int] & FLAG_SLAMCLICK != 0,
        jitter: blob[OFF_FLAGS as int] & FLAG_JITTER != 0,
        angle_snapping: blob[OFF_ANGLE as int] != 0,
        ripple: blob[OFF_RIPPLE as int] != 0,
        motion_sync: blob[OFF_MOTION as int] != 0,
        cpi_levels: blob[OFF_CPI_LEVELS as int],
        cpis: Seq::new(CPI_COUNT as nat, |i: int| cpi_at(blob, OFF_CPIS + 5 * i)),
        buttons: Seq::new(BUTTON_COUNT as nat, |i: int| button_view_at(blob, spec_button_offset(i))),
    }
}

/// Byte `p` of the blob after the scalar settings of `s` are written.
pub open spec fn scalar_byte(old: Seq<u8>, s: SettingsView, p: int) -> u8 {
    if p == OFF_DIVIDER {
        spec_hz_to_divider(s.polling_hz)
    } else if p == OFF_FLAGS {
        flags_byte(old[p], s.slamclick, s.jitter)
    } else if p == OFF_LOD {
        s.lod
    } else if p == OFF_ANGLE {
        bool_byte(s.angle_snapping)
    } else if p == OFF_RIPPLE {
        bool_byte(s.ripple)
    } else if p == OFF_MOTION {
        bool_byte(s.motion_sync)
    } else if p == OFF_CPI_LEVELS {
        s.cpi_levels
    } else {
        old[p]
    }
}

/// Byte `p` of the blob after the scalar settings and the first `n` DPI levels are written.
pub open spec fn cpi_stage_byte(old: Seq<u8>, s: SettingsView, n: int, p: int) -> u8 {
    if OFF_CPIS <= p < OFF_CPIS + 5 * n {
        cpi_byte(s.cpis[(p - OFF_CPIS) / 5], (p - OFF_CPIS) % 5)
    } else {
        scalar_byte(old, s, p)
    }
}

/// Byte `p` of the blob after everything but the buttons from slot `n` on is written.
pub open spec fn button_stage_byte(old: Seq<u8>, s: SettingsView, n: int, p: int) -> u8 {
    if BUTTON_AREA_START <= p < BUTTON_AREA_END && button_slot_of(p) < n {
        s.buttons[button_slot_of(p)].bytes()[(p - BUTTON_AREA_START) % 7]
    } else {
        cpi_stage_byte(old, s, s.cpis.len() as int, p)
    }
}

/// The blob after `s` is applied to `old`: the scalar settings, then each DPI
/// level at `OFF_CPIS + 5 * i`, then each button at its slot's offset.
pub open spec fn spec_apply_settings(old: Seq<u8>, s: SettingsView) -> Seq<u8> {
    Seq::new(old.len(), |p: int| button_stage_byte(old, s, s.buttons.len() as int, p))
}

impl Config {
    /// Polling rate in Hz for a divider byte (unknown dividers read as 1000 Hz).
    pub fn divider_to_hz(d: u8) -> (hz: u32)
        ensures
            hz == spec_divider_to_hz(d),
    {
        match d {
            1 => 8000,
            2 => 4000,
            4 => 2000,
            _ => 1000,
        }
    }

    /// Divider byte for a polling rate (unsupported rates map to 1000 Hz's divider).
    pub fn hz_to_divider(hz: u32) -> (d: u8)
        ensures
            d == spec_hz_to_divider(hz),
    {
        match hz {
            8000 => 1,
            4000 => 2,
            2000 => 4,
            _ => 8,
        }
    }

    /// The settings this blob encodes: polling rate, flags, the four DPI levels
    /// at `OFF_CPIS` and the eight button structs.
    pub fn to_settings(&self) -> (s: DeviceSettings)
        ensures
            s@ == spec_read_settings(self.blob@),
    {
        let ghost blob = self.blob@;
        let mut cpis: Vec<CpiLevel> = Vec::new();
        let mut i: usize = 0;
        while i < CPI_COUNT
            invariant
                i <= CPI_COUNT,
                blob == self.blob@,
                cpis@.len() == i,
                forall|j: int| 0 <= j < i ==> #[trigger] cpis@[j] == cpi_at(blob, OFF_CPIS + 5 * j),
            decreases CPI_COUNT - i,
        {
            let base = OFF_CPIS + i * 5;
            cpis.push(
                CpiLevel {
                    split: self.blob[base] != 0,
                    x: self.blob[base + 1] as u16 + (self.blob[base + 2] as u16) * 256,
                    y: self.blob[base + 3] as u16 + (self.blob[base + 4] as u16) * 256,
                },
            );
            i = i + 1;
        }
        let mut buttons: Vec<ButtonCfg> = Vec::new();
        let mut k: usize = 0;
        while k < BUTTON_COUNT
            invariant
                k <= BUTTON_COUNT,
                blob == self.blob@,
                buttons@.len() == k,
                forall|j: int|
                    0 <= j < k ==> #[trigger] buttons@[j]@ == button_view_at(blob, spec_button_offset(j)),
            decreases BUTTON_COUNT - k,
        {
            buttons.push(ButtonCfg::from_blob(&self.blob, button_offset(k)));
            k = k + 1;
        }
        let s = DeviceSettings {
            polling_hz: Self::divider_to_hz(self.blob[OFF_DIVIDER]),
            lod: self.blob[OFF_LOD],
            slamclick: self.blob[OFF_FLAGS] & FLAG_SLAMCLICK != 0,
            jitter: self.blob[OFF_FLAGS] & FLAG_JITTER != 0,
            angle_snapping: self.blob[OFF_ANGLE] != 0,
            ripple: self.blob[OFF_RIPPLE] != 0,
            motion_sync: self.blob[OFF_MOTION] != 0,
            cpi_levels: self.blob[OFF_CPI_LEVELS],
            cpis,
            buttons,
        };
        assert(s@.cpis =~= spec_read_settings(blob).cpis);
        assert(s@.buttons =~= spec_read_settings(blob).buttons);
        s
    }

    /// Writes `s` into the blob: the scalar settings, then each DPI level `i`
    /// at `OFF_CPIS + 5 * i`, then each button `i` at its slot's offset.
    /// Bytes that no setting covers keep their value.
    pub fn apply_settings(&mut self, s: &DeviceSettings)
        requires
            s.buttons@.len() <= BUTTON_COUNT,
            OFF_CPIS + 5 * s.cpis@.len() <= CONFIG_SIZE,
        ensures
            final(self).blob@ == spec_apply_settings(old(self).blob@, s@),
    {
        let ghost old_blob = self.blob@;
        self.blob[OFF_DIVIDER] = Self::hz_to_divider(s.polling_hz);
        let mut flags = self.blob[OFF_FLAGS] & !(FLAG_SLAMCLICK | FLAG_JITTER);
        if s.slamclick {
            flags = flags | FLAG_SLAMCLICK;
        }
        if s.jitter {
            flags = flags | FLAG_JITTER;
        }
        self.blob[OFF_FLAGS] = flags;
        self.blob[OFF_LOD] = s.lod;
        self.blob[OFF_ANGLE] = if s.angle_snapping { 1 } else { 0 };
        self.blob[OFF_RIPPLE] = if s.ripple { 1 } else { 0 };
        self.blob[OFF_MOTION] = if s.motion_sync { 1 } else { 0 };
        self.blob[OFF_CPI_LEVELS] = s.cpi_levels;
        assert forall|p: int| 0 <= p < CONFIG_SIZE implies #[trigger] self.blob@[p] == cpi_stage_byte(
            old_blob,
            s@,
            0,
            p,
        ) by {}
        let n_cpis = s.cpis.len();
        let mut i: usize = 0;
        while i < n_cpis
            invariant
                i <= n_cpis,
                n_cpis == s.cpis@.len(),
                OFF_CPIS + 5 * n_cpis <= CONFIG_SIZE,
                old_blob.len() == CONFIG_SIZE,
                forall|p: int|
                    0 <= p < CONFIG_SIZE ==> #[trigger] self.blob@[p] == cpi_stage_byte(old_blob, s@, i as int, p),
            decreases n_cpis - i,
        {
            let c = s.cpis[i];
            let base = OFF_CPIS + i * 5;
            self.blob[base] = if c.split { 1 } else { 0 };
            self.blob[base + 1] = (c.x % 256) as u8;
            self.blob[base + 2] = (c.x / 256) as u8;
            self.blob[base + 3] = (c.y % 256) as u8;
            self.blob[base + 4] = (c.y / 256) as u8;
            assert forall|p: int| 0 <= p < CONFIG_SIZE implies #[trigger] self.blob@[p] == cpi_stage_byte(
                old_blob,
                s@,
                i + 1,
                p,
            ) by {
                if base <= p < base + 5 {
                    lemma_record_index(OFF_CPIS as int, p, i as int);
                }
            }
            i = i + 1;
        }
        let n_buttons = s.buttons.len();
        let mut k: usize = 0;
        while k < n_buttons
            invariant
                k <= n_buttons,
                n_buttons == s.buttons@.len(),
                n_buttons <= BUTTON_COUNT,
                old_blob.len() == CONFIG_SIZE,
                forall|p: int|
                    0 <= p < CONFIG_SIZE ==> #[trigger] self.blob@[p] == button_stage_byte(old_blob, s@, k as int, p),
            decreases n_buttons - k,
        {
            let off = button_offset(k);
            let ghost before = self.blob@;
            s.buttons[k].to_blob(&mut self.blob, off);
            assert forall|p: int| 0 <= p < CONFIG_SIZE implies #[trigger] self.blob@[p] == button_stage_byte(
                old_blob,
                s@,
                k + 1,
                p,
            ) by {
                if BUTTON_AREA_START <= p < BUTTON_AREA_END {
                    lemma_button_slot(p, k as int);
                }
                assert(s@.buttons[k as int] == s.buttons@[k as int]@);
            }
            k = k + 1;
        }
        assert(self.blob@ =~= spec_apply_settings(old_blob, s@));
    }
}


/// The flag bits read back from the flags byte are the ones written into it.
proof fn lemma_flags_readback(old: u8, slamclick: bool, jitter: bool)
    ensures
        (flags_byte(old, slamclick, jitter) & FLAG_SLAMCLICK != 0) == slamclick,
        (flags_byte(old, slamclick, jitter) & FLAG_JITTER != 0) == jitter,
{
    assert(((old & !(0x01u8 | 0x10u8)) | 0x01u8 | 0x10u8) & 0x01u8 != 0) by (bit_vector);
    assert(((old & !(0x01u8 | 0x10u8)) | 0x01u8 | 0x10u8) & 0x10u8 != 0) by (bit_vector);
    assert(((old & !(0x01u8 | 0x10u8)) | 0x01u8) & 0x01u8 != 0) by (bit_vector);
    assert(((old & !(0x01u8 | 0x10u8)) | 0x01u8) & 0x10u8 == 0) by (bit_vector);
    assert(((old & !(0x01u8 | 0x10u8)) | 0x10u8) & 0x01u8 == 0) by (bit_vector);
    assert(((old & !(0x01u8 | 0x10u8)) | 0x10u8) & 0x10u8 != 0) by (bit_vector);
    assert((old & !(0x01u8 | 0x10u8)) & 0x01u8 == 0) by (bit_vector);
    assert((old & !(0x01u8 | 0x10u8)) & 0x10u8 == 0) by (bit_vector);
}

/// Reading the settings back from a blob they were applied to gives the same
/// settings, for a full set of four DPI levels and eight buttons at a
/// supported polling rate.
pub proof fn lemma_settings_roundtrip(blob: Seq<u8>, s: SettingsView)
    requires
        blob.len() == CONFIG_SIZE,
        s.cpis.len() == CPI_COUNT,
        s.buttons.len() == BUTTON_COUNT,
        forall|i: int| 0 <= i < BUTTON_COUNT ==> (#[trigger] s.buttons[i]).value.len() == 5,
        is_supported_rate(s.polling_hz),
    ensures
        spec_read_settings(spec_apply_settings(blob, s)) == s,
{
    let b = spec_apply_settings(blob, s);
    let r = spec_read_settings(b);
    lemma_flags_readback(blob[OFF_FLAGS as int], s.slamclick, s.jitter);
    assert forall|i: int| 0 <= i < CPI_COUNT implies #[trigger] r.cpis[i] == s.cpis[i] by {
        let base = OFF_CPIS + 5 * i;
        lemma_record_index(OFF_CPIS as int, base, i);
        lemma_record_index(OFF_CPIS as int, base + 1, i);
        lemma_record_index(OFF_CPIS as int, base + 2, i);
        lemma_record_index(OFF_CPIS as int, base + 3, i);
        lemma_record_index(OFF_CPIS as int, base + 4, i);
        assert(b[base] == cpi_stage_byte(blob, s, 4, base));
        assert(b[base + 1] == cpi_stage_byte(blob, s, 4, base + 1));
        assert(b[base + 2] == cpi_stage_byte(blob, s, 4, base + 2));
        assert(b[base + 3] == cpi_stage_byte(blob, s, 4, base + 3));
        assert(b[base + 4] == cpi_stage_byte(blob, s, 4, base + 4));
    }
    assert forall|i: int| 0 <= i < BUTTON_COUNT implies #[trigger] r.buttons[i] == s.buttons[i] by {
        let off = spec_button_offset(i);
        lemma_button_slot(off, i);
        lemma_button_slot(off + 1, i);
        lemma_button_slot(off + 2, i);
        lemma_button_slot(off + 3, i);
        lemma_button_slot(off + 4, i);
        lemma_button_slot(off + 5, i);
        lemma_button_slot(off + 6, i);
        assert(r.buttons[i].value =~= s.buttons[i].value);
    }
    assert(r.cpis =~= s.cpis);
    assert(r.buttons =~= s.buttons);
}


/// A keyboard binding made for HID usage `usage` names that usage: the device
/// code plus one, modulo 256, is the usage again.
pub proof fn lemma_key_code_roundtrip(usage: u8)
    ensures
        (device_key_code(usage) + 1) % 256 == usage,
{
}


/// The documented offset of button slot `i`'s struct: Left 0x7F, Right 0x4E,
/// Middle 0x55, Back 0x5C, Forward 0x63, DPI 0x6A, Scroll Up 0x71, Scroll Down 0x78.
pub open spec fn documented_slot_offset(i: int) -> int {
    if i == 0 {
        0x7F
    } else if i == 1 {
        0x4E
    } else if i == 2 {
        0x55
    } else if i == 3 {
        0x5C
    } else if i == 4 {
        0x63
    } else if i == 5 {
        0x6A
    } else if i == 6 {
        0x71
    } else {
        0x78
    }
}

/// Each setting is read from its own documented byte of the config blob:
/// divider at 21 (1 = 8000 Hz, 2 = 4000 Hz, 4 = 2000 Hz, anything else
/// 1000 Hz), flags at 22 (bit 0x01 slam click, bit 0x10 jitter), lift-off at
/// 25, angle snapping at 26, ripple control at 27, motion sync at 28, the
/// number of DPI levels at 30, DPI level `i` at `51 + 5i` as
/// `[split][x lo][x hi][y lo][y hi]`, and button `i` as
/// `[kind][v0..v4][debounce]` at its documented slot offset.
pub proof fn lemma_settings_decoding(blob: Seq<u8>)
    requires
        blob.len() == CONFIG_SIZE,
    ensures
        ({
            let r = spec_read_settings(blob);
            &&& r.polling_hz == (if blob[21] == 1 {
                8000u32
            } else if blob[21] == 2 {
                4000u32
            } else if blob[21] == 4 {
                2000u32
            } else {
                1000u32
            })
            &&& r.slamclick == (blob[22] & 0x01 != 0)
            &&& r.jitter == (blob[22] & 0x10 != 0)
            &&& r.lod == blob[25]
            &&& r.angle_snapping == (blob[26] != 0)
            &&& r.ripple == (blob[27] != 0)
            &&& r.motion_sync == (blob[28] != 0)
            &&& r.cpi_levels == blob[30]
            &&& r.cpis.len() == 4
            &&& forall|i: int|
                0 <= i < 4 ==> {
                    &&& (#[trigger] r.cpis[i]).split == (blob[51 + 5 * i] != 0)
                    &&& r.cpis[i].x == blob[52 + 5 * i] + 256 * blob[53 + 5 * i]
                    &&& r.cpis[i].y == blob[54 + 5 * i] + 256 * blob[55 + 5 * i]
                }
            &&& r.buttons.len() == 8
            &&& forall|i: int|
                0 <= i < 8 ==> {
                    let off = documented_slot_offset(i);
                    &&& (#[trigger] r.buttons[i]).kind == blob[off]
                    &&& r.buttons[i].value == blob.subrange(off + 1, off + 6)
                    &&& r.buttons[i].debounce == blob[off + 6]
                }
        }),
{
    let r = spec_read_settings(blob);
    assert forall|i: int| 0 <= i < 8 implies documented_slot_offset(i) == spec_button_offset(i) by {}
}

/// Applying settings writes each one to its own documented byte: the divider
/// for the polling rate at 21 (8000 Hz -> 1, 4000 -> 2, 2000 -> 4, else 8),
/// the slam-click (0x01) and jitter (0x10) bits at 22 with its other bits
/// kept, lift-off at 25, angle snapping at 26, ripple control at 27 and motion
/// sync at 28 (1 for on, 0 for off), the number of DPI levels at 30, the
/// first four DPI levels at `51 + 5i`, and each given button's struct at its
/// documented slot offset.
pub proof fn lemma_settings_encoding(blob: Seq<u8>, s: SettingsView)
    requires
        blob.len() == CONFIG_SIZE,
        s.buttons.len() <= 8,
        OFF_CPIS + 5 * s.cpis.len() <= CONFIG_SIZE,
        forall|i: int| 0 <= i < s.buttons.len() ==> (#[trigger] s.buttons[i]).value.len() == 5,
    ensures
        ({
            let a = spec_apply_settings(blob, s);
            &&& a.len() == CONFIG_SIZE
            &&& a[21] == (if s.polling_hz == 8000 {
                1u8
            } else if s.polling_hz == 4000 {
                2u8
            } else if s.polling_hz == 2000 {
                4u8
            } else {
                8u8
            })
            &&& (a[22] & 0x01 != 0) == s.slamclick
            &&& (a[22] & 0x10 != 0) == s.jitter
            &&& a[22] & 0xEE == blob[22] & 0xEE
            &&& a[25] == s.lod
            &&& a[26] == (if s.angle_snapping { 1u8 } else { 0u8 })
            &&& a[27] == (if s.ripple { 1u8 } else { 0u8 })
            &&& a[28] == (if s.motion_sync { 1u8 } else { 0u8 })
            &&& a[30] == s.cpi_levels
            &&& forall|i: int|
                0 <= i < s.cpis.len() && i < 4 ==> {
                    let c = #[trigger] s.cpis[i];
                    &&& a[51 + 5 * i] == (if c.split { 1u8 } else { 0u8 })
                    &&& a[52 + 5 * i] == c.x % 256
                    &&& a[53 + 5 * i] == c.x / 256
                    &&& a[54 + 5 * i] == c.y % 256
                    &&& a[55 + 5 * i] == c.y / 256
                }
            &&& forall|i: int|
                0 <= i < s.buttons.len() ==> {
                    let off = documented_slot_offset(i);
                    let bv = #[trigger] s.buttons[i];
                    &&& a[off] == bv.kind
                    &&& a.subrange(off + 1, off + 6) == bv.value
                    &&& a[off + 6] == bv.debounce
                }
        }),
{
    let a = spec_apply_settings(blob, s);
    let old = blob[22];
    assert(((old & !(0x01u8 | 0x10u8)) | 0x01u8 | 0x10u8) & 0xEE == old & 0xEE) by (bit_vector);
    assert(((old & !(0x01u8 | 0x10u8)) | 0x01u8) & 0xEE == old & 0xEE) by (bit_vector);
    assert(((old & !(0x01u8 | 0x10u8)) | 0x10u8) & 0xEE == old & 0xEE) by (bit_vector);
    assert((old & !(0x01u8 | 0x10u8)) & 0xEE == old & 0xEE) by (bit_vector);
    lemma_flags_readback(old, s.slamclick, s.jitter);
    assert forall|i: int| 0 <= i < s.cpis.len() && i < 4 implies {
        let c = #[trigger] s.cpis[i];
        &&& a[51 + 5 * i] == (if c.split { 1u8 } else { 0u8 })
        &&& a[52 + 5 * i] == c.x % 256
        &&& a[53 + 5 * i] == c.x / 256
        &&& a[54 + 5 * i] == c.y % 256
        &&& a[55 + 5 * i] == c.y / 256
    } by {
        let base = 51 + 5 * i;
        lemma_record_index(OFF_CPIS as int, base, i);
        lemma_record_index(OFF_CPIS as int, base + 1, i);
        lemma_record_index(OFF_CPIS as int, base + 2, i);
        lemma_record_index(OFF_CPIS as int, base + 3, i);
        lemma_record_index(OFF_CPIS as int, base + 4, i);
    }
    assert forall|i: int| 0 <= i < s.buttons.len() implies {
        let off = documented_slot_offset(i);
        let bv = #[trigger] s.buttons[i];
        &&& a[off] == bv.kind
        &&& a.subrange(off + 1, off + 6) == bv.value
        &&& a[off + 6] == bv.debounce
    } by {
        let off = spec_button_offset(i);
        assert(documented_slot_offset(i) == off);
        lemma_button_slot(off, i);
        lemma_button_slot(off + 1, i);
        lemma_button_slot(off + 2, i);
        lemma_button_slot(off + 3, i);
        lemma_button_slot(off + 4, i);
        lemma_button_slot(off + 5, i);
        lemma_button_slot(off + 6, i);
        assert(a.subrange(off + 1, off + 6) =~= s.buttons[i].value);
    }
}

} // verus!
