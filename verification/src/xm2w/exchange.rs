//! The host side of the protocol: the feature-report exchanges that read and
//! write the device, and the decoding of the device's replies.
//!
//! An exchange is: send `payload` as feature report `report_id`, wait
//! `settle_ms`, read back at most `reply_size` bytes, wait `after_ms`.

use vstd::prelude::*;
use vstd::slice::{slice_subrange, slice_to_vec};

use super::layout::{copy_into, BUTTON_COUNT, CONFIG_SIZE, CPI_COUNT, OFF_CPIS, OFF_DIVIDER};
use super::emu::{spec_get_feature, spec_set_feature, EmuView, BLOB_SIZE};
use super::settings::{
    is_supported_rate, lemma_settings_roundtrip, spec_apply_settings, spec_read_settings, Config,
    SettingsView,
};
use super::text::{decimal, hex2, push_decimal, push_hex2};
use super::Transport;

verus! {

/// The report id of every configuration command.
pub const REPORT_ID: u8 = 0xA1;

/// One command sent to the device and the read that completes it.
pub struct Exchange {
    pub report_id: u8,
    pub payload: Vec<u8>,
    pub settle_ms: u64,
    pub reply_size: usize,
    pub after_ms: u64,
}

/// A device reached through a transport.
pub struct Device<T: Transport> {
    pub t: T,
}

/// The 32-byte sensor/CPI block for config `c`: `c[0x17..0x1C]`, a zero,
/// `c[0x1E]`, `c[0x1D]`, the DPI levels `c[0x33..0x47]`, and four zeros.
pub open spec fn spec_sensor_block(c: Seq<u8>) -> Seq<u8> {
    Seq::new(
        32,
        |i: int|
            if i < 5 {
                c[0x17 + i]
            } else if i == 6 {
                c[0x1E]
            } else if i == 7 {
                c[0x1D]
            } else if 8 <= i < 28 {
                c[0x33 + i - 8]
            } else {
                0u8
            },
    )
}

/// The 63-byte payload `[0x14 0x0F 0x1C]`, zeros, and the sensor block at 15.
pub open spec fn spec_sensor_payload(c: Seq<u8>) -> Seq<u8> {
    Seq::new(
        63,
        |i: int|
            if i == 0 {
                0x14u8
            } else if i == 1 {
                0x0Fu8
            } else if i == 2 {
                0x1Cu8
            } else if 15 <= i < 47 {
                spec_sensor_block(c)[i - 15]
            } else {
                0u8
            },
    )
}

/// Offset in the config of the 28 bytes that button part `part` (1 or 2) carries.
pub open spec fn part_source(part: u8) -> int {
    0x47 + (part - 1) * 28
}

/// The 63-byte payload `[0x16 0x0F 0x1C]`, the part number at 5, and
/// `c[part_source(part)..+28]` at 15.
pub open spec fn spec_button_payload(c: Seq<u8>, part: u8) -> Seq<u8> {
    Seq::new(
        63,
        |i: int|
            if i == 0 {
                0x16u8
            } else if i == 1 {
                0x0Fu8
            } else if i == 2 {
                0x1Cu8
            } else if i == 5 {
                part
            } else if 15 <= i < 43 {
                c[part_source(part) + i - 15]
            } else {
                0u8
            },
    )
}

/// A single-byte command exchange.
fn command(cmd: u8, settle_ms: u64, reply_size: usize) -> (x: Exchange)
    ensures
        x.report_id == REPORT_ID,
        x.payload@ == seq![cmd],
        x.settle_ms == settle_ms,
        x.reply_size == reply_size,
        x.after_ms == 0,
{
    let mut payload: Vec<u8> = Vec::new();
    payload.push(cmd);
    Exchange { report_id: REPORT_ID, payload, settle_ms, reply_size, after_ms: 0 }
}

/// Reads the 1041-byte config: `[0x12]`, wait 100 ms, read 1041 bytes.
pub fn read_config_exchange() -> (x: Exchange)
    ensures
        x.report_id == REPORT_ID,
        x.payload@ == seq![0x12u8],
        x.settle_ms == 100,
        x.reply_size == CONFIG_SIZE,
        x.after_ms == 0,
{
    command(0x12, 100, CONFIG_SIZE)
}

/// Reads the firmware version: `[0x02]`, wait 50 ms, read 64 bytes.
pub fn fw_version_exchange() -> (x: Exchange)
    ensures
        x.report_id == REPORT_ID,
        x.payload@ == seq![0x02u8],
        x.settle_ms == 50,
        x.reply_size == 64,
        x.after_ms == 0,
{
    command(0x02, 50, 64)
}

/// Factory reset: `[0x13]`, wait 400 ms, read 64 bytes.
pub fn factory_reset_exchange() -> (x: Exchange)
    ensures
        x.report_id == REPORT_ID,
        x.payload@ == seq![0x13u8],
        x.settle_ms == 400,
        x.reply_size == 64,
        x.after_ms == 0,
{
    command(0x13, 400, 64)
}

/// Writes the sensor/CPI block of `cfg`: the sensor payload, wait 150 ms, read 64 bytes.
pub fn sensor_exchange(cfg: &Config) -> (x: Exchange)
    ensures
        x.report_id == REPORT_ID,
        x.payload@ == spec_sensor_payload(cfg.blob@),
        x.settle_ms == 150,
        x.reply_size == 64,
        x.after_ms == 0,
{
    let b = &cfg.blob;
    let mut buf = [0u8; 64];
    assert(forall|i: int| 0 <= i < 64 ==> buf@[i] == 0) by {
        broadcast use vstd::array::group_array_axioms;
    }
    buf[0] = REPORT_ID;
    buf[1] = 0x14;
    buf[2] = 0x0F;
    buf[3] = 0x1C;
    // the block lands at buf[16..48]: b[0x17..0x1C], b[0x1E], b[0x1D], the DPI levels
    copy_into(&mut buf, 16, b.as_slice(), 0x17, 5);
    buf[16 + 6] = b[0x1E];
    buf[16 + 7] = b[0x1D];
    let mut i: usize = 0;
    while i < CPI_COUNT
        invariant
            i <= CPI_COUNT,
            b@ == cfg.blob@,
            buf@.len() == 64,
            forall|k: int|
                0 <= k < 64 ==> #[trigger] buf@[k] == (if 24 <= k < 24 + 5 * i {
                    b@[0x33 + k - 24]
                } else if k == 0 {
                    REPORT_ID
                } else if 1 <= k < 4 {
                    spec_sensor_payload(b@)[k - 1]
                } else if 16 <= k < 21 {
                    b@[0x17 + k - 16]
                } else if k == 22 {
                    b@[0x1E]
                } else if k == 23 {
                    b@[0x1D]
                } else {
                    0u8
                }),
        decreases CPI_COUNT - i,
    {
        let base = OFF_CPIS + i * 5;
        let dst = 16 + 8 + i * 5;
        copy_into(&mut buf, dst, b.as_slice(), base, 5);
        i = i + 1;
    }
    let payload = slice_to_vec(slice_subrange(buf.as_slice(), 1, 64));
    assert(payload@ =~= spec_sensor_payload(cfg.blob@));
    Exchange { report_id: REPORT_ID, payload, settle_ms: 150, reply_size: 64, after_ms: 0 }
}


/// One button part exchange: the part's payload, wait 100 ms, read 64 bytes, wait 100 ms.
fn button_exchange(cfg: &Config, part: u8) -> (x: Exchange)
    requires
        part == 1 || part == 2,
    ensures
        x.report_id == REPORT_ID,
        x.payload@ == spec_button_payload(cfg.blob@, part),
        x.settle_ms == 100,
        x.reply_size == 64,
        x.after_ms == 100,
{
    let mut buf = [0u8; 64];
    assert(forall|i: int| 0 <= i < 64 ==> buf@[i] == 0) by {
        broadcast use vstd::array::group_array_axioms;
    }
    buf[0] = REPORT_ID;
    buf[1] = 0x16;
    buf[2] = 0x0F;
    buf[3] = 0x1C;
    buf[6] = part;
    let src: usize = 0x47 + (part as usize - 1) * 28;
    copy_into(&mut buf, 16, cfg.blob.as_slice(), src, 28);
    let payload = slice_to_vec(slice_subrange(buf.as_slice(), 1, 64));
    assert(payload@ =~= spec_button_payload(cfg.blob@, part));
    Exchange { report_id: REPORT_ID, payload, settle_ms: 100, reply_size: 64, after_ms: 100 }
}

/// Writes the buttons of `cfg` (`cfg[0x47..0x7F]`) as part 1 then part 2.
/// Left's struct at 0x7F is outside this region: it is not rebindable.
pub fn button_exchanges(cfg: &Config) -> (xs: Vec<Exchange>)
    ensures
        xs@.len() == 2,
        forall|i: int|
            0 <= i < 2 ==> {
                &&& (#[trigger] xs@[i]).report_id == REPORT_ID
                &&& xs@[i].payload@ == spec_button_payload(cfg.blob@, (i + 1) as u8)
                &&& xs@[i].settle_ms == 100
                &&& xs@[i].reply_size == 64
                &&& xs@[i].after_ms == 100
            },
{
    let mut xs: Vec<Exchange> = Vec::new();
    xs.push(button_exchange(cfg, 1));
    xs.push(button_exchange(cfg, 2));
    xs
}

/// The text of the error for a short config read.
pub open spec fn short_read_error(len: nat) -> Seq<char> {
    "config read: got "@ + decimal(len) + " bytes"@
}

/// The config in a read reply: its first 1041 bytes; a shorter reply is an error.
pub fn config_from_reply(reply: &[u8]) -> (r: Result<Config, String>)
    ensures
        reply@.len() >= CONFIG_SIZE ==> (r matches Ok(cfg) && cfg.blob@ == reply@.take(CONFIG_SIZE as int)),
        reply@.len() < CONFIG_SIZE ==> (r matches Err(msg) && msg@ == short_read_error(reply@.len())),
{
    let n = reply.len();
    if n < CONFIG_SIZE {
        let mut msg = String::from_str("config read: got ");
        push_decimal(&mut msg, n as u64);
        msg.append(" bytes");
        return Err(msg);
    }
    let mut arr = [0u8; CONFIG_SIZE];
    copy_into(&mut arr, 0, reply, 0, CONFIG_SIZE);
    assert(arr@ =~= reply@.take(CONFIG_SIZE as int));
    Ok(Config { blob: arr })
}

/// The firmware version text `major.minor (id 0xMMmm)` with bytes 17 and 18 of the reply.
pub open spec fn spec_fw_version(major: u8, minor: u8) -> Seq<char> {
    decimal(major as nat) + "."@ + decimal(minor as nat) + " (id 0x"@ + hex2(major) + hex2(minor) + ")"@
}

/// Decodes a firmware version reply: it needs at least 19 bytes and status 1 at byte 1.
pub fn fw_version_from_reply(reply: &[u8]) -> (r: Result<String, String>)
    ensures
        (reply@.len() >= 19 && reply@[1] == 1) ==> (r matches Ok(v) && v@ == spec_fw_version(reply@[17], reply@[18])),
        !(reply@.len() >= 19 && reply@[1] == 1) ==> (r matches Err(msg) && msg@ == "fw version read failed"@),
{
    if reply.len() < 19 || reply[1] != 1 {
        return Err(String::from_str("fw version read failed"));
    }
    let major = reply[17];
    let minor = reply[18];
    let mut v = String::new();
    push_decimal(&mut v, major as u64);
    v.append(".");
    push_decimal(&mut v, minor as u64);
    v.append(" (id 0x");
    push_hex2(&mut v, major);
    push_hex2(&mut v, minor);
    v.append(")");
    assert(v@ =~= spec_fw_version(major, minor));
    Ok(v)
}


/// The device state after the apply path writes config `c`: the sensor
/// exchange, then button part 1, then button part 2.
pub open spec fn spec_write_config(e: EmuView, c: Seq<u8>) -> EmuView {
    let e1 = spec_set_feature(e, REPORT_ID, spec_sensor_payload(c));
    let e2 = spec_set_feature(e1, REPORT_ID, spec_button_payload(c, 1));
    spec_set_feature(e2, REPORT_ID, spec_button_payload(c, 2))
}

/// The config the host reads back after the read-config exchange.
pub open spec fn spec_read_back(e: EmuView) -> Seq<u8> {
    spec_get_feature(spec_set_feature(e, REPORT_ID, seq![0x12u8]), CONFIG_SIZE as nat)
}

/// The config bytes that the sensor and button exchanges carry to the device:
/// 0x17..0x1C, 0x1D, 0x1E and 0x33..0x7F.
pub open spec fn is_written_byte(i: int) -> bool {
    ||| 0x17 <= i < 0x1C
    ||| i == 0x1D
    ||| i == 0x1E
    ||| 0x33 <= i < 0x7F
}

/// After the apply path, the device's config region holds `c` wherever the
/// exchanges reach and its own former bytes everywhere else.
pub proof fn lemma_write_config_bytes(e: EmuView, c: Seq<u8>)
    requires
        e.blob.len() == BLOB_SIZE,
        c.len() == CONFIG_SIZE,
    ensures
        spec_write_config(e, c).blob.len() == BLOB_SIZE,
        forall|i: int|
            0 <= i < CONFIG_SIZE ==> #[trigger] spec_write_config(e, c).blob[i] == (if is_written_byte(i) {
                c[i]
            } else {
                e.blob[i]
            }),
{
    let p0 = spec_sensor_payload(c);
    let p1 = spec_button_payload(c, 1);
    let p2 = spec_button_payload(c, 2);
    assert(p0.subrange(15, 47) =~= spec_sensor_block(c));
    assert(p1.subrange(15, 43) =~= c.subrange(0x47, 0x63));
    assert(p2.subrange(15, 43) =~= c.subrange(0x63, 0x7F));
    let e1 = spec_set_feature(e, REPORT_ID, p0);
    let e2 = spec_set_feature(e1, REPORT_ID, p1);
    let e3 = spec_set_feature(e2, REPORT_ID, p2);
    assert(p1[5] == 1u8);
    assert(p2[5] == 2u8);
    assert forall|i: int| 0 <= i < CONFIG_SIZE implies #[trigger] e3.blob[i] == (if is_written_byte(i) {
        c[i]
    } else {
        e.blob[i]
    }) by {
        assert(e1.blob[i] == (if 0x17 <= i < 0x1C || i == 0x1D || i == 0x1E || 0x33 <= i < 0x47 {
            c[i]
        } else {
            e.blob[i]
        }));
        assert(e2.blob[i] == (if 0x47 <= i < 0x63 { c[i] } else { e1.blob[i] }));
    }
}

/// What the host reads back after applying config `c`: the scalar settings
/// that the exchanges carry (lift-off distance, angle snapping, ripple control,
/// the number of DPI levels), the DPI levels and the seven rebindable buttons
/// come from `c`; the Left button, which lies outside the writable region,
/// stays as the device had it.
pub proof fn lemma_apply_path_settings(e: EmuView, c: Seq<u8>)
    requires
        e.blob.len() == BLOB_SIZE,
        c.len() == CONFIG_SIZE,
    ensures
        ({
            let r = spec_read_settings(spec_read_back(spec_write_config(e, c)));
            let s = spec_read_settings(c);
            let d = spec_read_settings(e.blob);
            &&& r.lod == s.lod
            &&& r.angle_snapping == s.angle_snapping
            &&& r.ripple == s.ripple
            &&& r.cpi_levels == s.cpi_levels
            &&& r.cpis == s.cpis
            &&& forall|i: int| 1 <= i < 8 ==> #[trigger] r.buttons[i] == s.buttons[i]
            &&& r.buttons[0] == d.buttons[0]
        }),
{
    lemma_write_config_bytes(e, c);
    let e3 = spec_write_config(e, c);
    let back = spec_read_back(e3);
    assert(back =~= e3.blob.take(CONFIG_SIZE as int));
    let r = spec_read_settings(back);
    let s = spec_read_settings(c);
    let d = spec_read_settings(e.blob);
    assert(r.cpis =~= s.cpis);
    assert forall|i: int| 1 <= i < 8 implies #[trigger] r.buttons[i] == s.buttons[i] by {
        assert(r.buttons[i].value =~= s.buttons[i].value);
    }
    assert(r.buttons[0].value =~= d.buttons[0].value);
}


/// The apply path end to end: settings `s` applied to the config read from
/// the device, written with the sensor and button exchanges and read back,
/// give back `s`'s lift-off distance, angle snapping, ripple control, number
/// of DPI levels, DPI levels and seven rebindable buttons, while the Left
/// button (not rebindable) reads back as the device had it; the read-back
/// reply is a full config. The polling rate reads back as applied when the
/// device already runs at it: no command of the device's write protocol
/// carries the divider byte (see `lemma_divider_set_only_by_reset`).
pub proof fn lemma_apply_then_read_back(e: EmuView, c: Seq<u8>, s: SettingsView)
    requires
        e.blob.len() == BLOB_SIZE,
        c.len() == CONFIG_SIZE,
        s.cpis.len() == CPI_COUNT,
        s.buttons.len() == BUTTON_COUNT,
        forall|i: int| 0 <= i < BUTTON_COUNT ==> (#[trigger] s.buttons[i]).value.len() == 5,
        is_supported_rate(s.polling_hz),
    ensures
        ({
            let back = spec_read_back(spec_write_config(e, spec_apply_settings(c, s)));
            let r = spec_read_settings(back);
            let d = spec_read_settings(e.blob);
            &&& back.len() == CONFIG_SIZE
            &&& r.lod == s.lod
            &&& r.angle_snapping == s.angle_snapping
            &&& r.ripple == s.ripple
            &&& r.cpi_levels == s.cpi_levels
            &&& r.cpis == s.cpis
            &&& forall|i: int| 1 <= i < 8 ==> #[trigger] r.buttons[i] == s.buttons[i]
            &&& r.buttons[0] == d.buttons[0]
            &&& (d.polling_hz == s.polling_hz ==> r.polling_hz == s.polling_hz)
        }),
{
    let applied = spec_apply_settings(c, s);
    lemma_settings_roundtrip(c, s);
    lemma_apply_path_settings(e, applied);
    lemma_write_config_bytes(e, applied);
    let back = spec_read_back(spec_write_config(e, applied));
    assert(back =~= spec_write_config(e, applied).blob.take(CONFIG_SIZE as int));
    let r = spec_read_settings(back);
    assert forall|i: int| 1 <= i < 8 implies #[trigger] r.buttons[i] == s.buttons[i] by {
        assert(r.buttons[i] == spec_read_settings(applied).buttons[i]);
    }
    assert(back[OFF_DIVIDER as int] == e.blob[OFF_DIVIDER as int]);
}


/// Whether candidate interface `x` is tried before `y`: higher interface
/// numbers first (the vendor config interface is 1), ties in listing order.
pub open spec fn tried_before(interfaces: Seq<i32>, x: int, y: int) -> bool {
    interfaces[x] > interfaces[y] || (interfaces[x] == interfaces[y] && x < y)
}

/// The order in which the matching HID interfaces are opened on Linux: the
/// indices of `interfaces`, highest interface number first, ties in listing
/// order (a stable sort by descending interface number).
pub fn open_order(interfaces: &[i32]) -> (order: Vec<usize>)
    ensures
        order@.len() == interfaces@.len(),
        forall|a: int| 0 <= a < order@.len() ==> order@[a] < interfaces@.len(),
        forall|a: int, b: int|
            0 <= a < b < order@.len() ==> tried_before(interfaces@, #[trigger] order@[a] as int, #[trigger] order@[b] as int),
{
    let n = interfaces.len();
    let mut order: Vec<usize> = Vec::new();
    let mut i: usize = 0;
    while i < n
        invariant
            i <= n,
            n == interfaces@.len(),
            order@.len() == i,
            forall|a: int| 0 <= a < order@.len() ==> #[trigger] order@[a] < i,
            forall|a: int, b: int|
                0 <= a < b < order@.len() ==> tried_before(interfaces@, #[trigger] order@[a] as int, #[trigger] order@[b] as int),
        decreases n - i,
    {
        let mut p: usize = 0;
        while p < order.len() && interfaces[order[p]] >= interfaces[i]
            invariant
                p <= order@.len(),
                i < n,
                n == interfaces@.len(),
                forall|a: int| 0 <= a < order@.len() ==> #[trigger] order@[a] < i,
                forall|q: int| 0 <= q < p ==> interfaces@[#[trigger] order@[q] as int] >= interfaces@[i as int],
            decreases order@.len() - p,
        {
            p = p + 1;
        }
        let ghost before = order@;
        assert forall|q: int| p <= q < before.len() implies interfaces@[#[trigger] before[q] as int]
            < interfaces@[i as int] by {
            if q > p {
                assert(tried_before(interfaces@, before[p as int] as int, before[q] as int));
            }
        }
        order.insert(p, i);
        assert forall|a: int, b: int|
            0 <= a < b < order@.len() implies tried_before(interfaces@, #[trigger] order@[a] as int, #[trigger] order@[b] as int) by {
            if a < p && b < p {
                assert(order@[a] == before[a] && order@[b] == before[b]);
            } else if a < p && b == p {
                assert(order@[a] == before[a]);
            } else if a < p {
                assert(order@[a] == before[a] && order@[b] == before[b - 1]);
            } else if a == p {
                assert(order@[b] == before[b - 1]);
            } else {
                assert(order@[a] == before[a - 1] && order@[b] == before[b - 1]);
            }
        }
        i = i + 1;
    }
    order
}

/// Whether `usage` is the keyboard/vendor interface (primary usage page 1, usage 6).
pub open spec fn is_preferred_usage(usage: Option<(i32, i32)>) -> bool {
    usage == Some((1i32, 6i32))
}

/// The interface opened on macOS among the device's interfaces, given each
/// one's primary usage page and usage (`None` where they cannot be read): the
/// first keyboard/vendor interface (page 1, usage 6), else the first one.
pub fn preferred_interface(usages: &[Option<(i32, i32)>]) -> (k: usize)
    ensures
        (exists|j: int| 0 <= j < usages@.len() && is_preferred_usage(#[trigger] usages@[j])) ==> {
            &&& k < usages@.len()
            &&& is_preferred_usage(usages@[k as int])
            &&& forall|j: int| 0 <= j < k ==> !is_preferred_usage(#[trigger] usages@[j])
        },
        !(exists|j: int| 0 <= j < usages@.len() && is_preferred_usage(#[trigger] usages@[j])) ==> k == 0,
{
    let n = usages.len();
    let mut k: usize = 0;
    while k < n
        invariant
            k <= n,
            n == usages@.len(),
            forall|j: int| 0 <= j < k ==> !is_preferred_usage(#[trigger] usages@[j]),
        decreases n - k,
    {
        match usages[k] {
            Some((page, usage)) => {
                if page == 1 && usage == 6 {
                    return k;
                }
            },
            None => {},
        }
        k = k + 1;
    }
    0
}


/// The writes of the apply path, in order: the sensor exchange, then button
/// part 1, then button part 2. Sending them to a device in state `e` leaves it
/// in `spec_write_config(e, cfg)`.
pub fn apply_exchanges(cfg: &Config) -> (xs: Vec<Exchange>)
    ensures
        xs@.len() == 3,
        forall|i: int| 0 <= i < 3 ==> (#[trigger] xs@[i]).report_id == REPORT_ID && xs@[i].reply_size == 64,
        xs@[0].payload@ == spec_sensor_payload(cfg.blob@),
        xs@[0].settle_ms == 150 && xs@[0].after_ms == 0,
        xs@[1].payload@ == spec_button_payload(cfg.blob@, 1),
        xs@[2].payload@ == spec_button_payload(cfg.blob@, 2),
        xs@[1].settle_ms == 100 && xs@[1].after_ms == 100,
        xs@[2].settle_ms == 100 && xs@[2].after_ms == 100,
        forall|e: EmuView|
            #[trigger] spec_write_config(e, cfg.blob@) == spec_set_feature(
                spec_set_feature(spec_set_feature(e, xs@[0].report_id, xs@[0].payload@), xs@[1].report_id, xs@[1].payload@),
                xs@[2].report_id,
                xs@[2].payload@,
            ),
{
    let mut xs: Vec<Exchange> = Vec::new();
    xs.push(sensor_exchange(cfg));
    xs.push(button_exchange(cfg, 1));
    xs.push(button_exchange(cfg, 2));
    xs
}

} // verus!
