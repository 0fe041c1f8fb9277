use xm2w::xm2w::emu::{emu_enabled, emu_set, factory_blob, EmuTransport, BLOB_SIZE};
use xm2w::xm2w::exchange::{
    apply_exchanges, open_order, preferred_interface, button_exchanges, config_from_reply, factory_reset_exchange, fw_version_exchange,
    fw_version_from_reply, read_config_exchange, sensor_exchange, REPORT_ID,
};
use xm2w::xm2w::layout::{button_offset, CONFIG_SIZE, MOUSE_BACK, SCROLL_DOWN};
use xm2w::xm2w::text::{hex_string, interpret_slot, key_name};
use xm2w::xm2w::{ButtonCfg, Config, CpiLevel, DeviceSettings, Transport};

fn sample_settings() -> DeviceSettings {
    DeviceSettings {
        polling_hz: 2000,
        lod: 2,
        slamclick: false,
        jitter: true,
        angle_snapping: true,
        ripple: false,
        motion_sync: true,
        cpi_levels: 3,
        cpis: vec![
            CpiLevel { split: true, x: 450, y: 900 },
            CpiLevel { split: false, x: 1200, y: 1200 },
            CpiLevel { split: false, x: 26000, y: 26000 },
            CpiLevel { split: true, x: 1, y: 65535 },
        ],
        buttons: vec![
            ButtonCfg::mouse(0),
            ButtonCfg::key(0x03, 0x1A),
            ButtonCfg::disabled(),
            ButtonCfg::mouse(MOUSE_BACK),
            ButtonCfg::cpi_loop(),
            ButtonCfg::scroll(SCROLL_DOWN),
            ButtonCfg::scroll(1),
            ButtonCfg { debounce: 3, kind: 7, value: [1, 2, 3, 4, 5] },
        ],
    }
}

fn emu_config(e: &EmuTransport) -> Config {
    let mut blob = [0u8; CONFIG_SIZE];
    blob.copy_from_slice(&e.blob[..CONFIG_SIZE]);
    Config { blob }
}

#[test]
fn settings_roundtrip_through_blob() {
    let mut cfg = Config { blob: [0x77u8; CONFIG_SIZE] };
    let s = sample_settings();
    cfg.apply_settings(&s);
    let r = cfg.to_settings();
    assert_eq!(r.polling_hz, 2000);
    assert_eq!(r.lod, 2);
    assert!(!r.slamclick && r.jitter && r.angle_snapping && !r.ripple && r.motion_sync);
    assert_eq!(r.cpi_levels, 3);
    for i in 0..4 {
        assert_eq!(r.cpis[i].x, s.cpis[i].x);
        assert_eq!(r.cpis[i].y, s.cpis[i].y);
        assert_eq!(r.cpis[i].split, s.cpis[i].split);
    }
    for i in 0..8 {
        assert_eq!(r.buttons[i].kind, s.buttons[i].kind);
        assert_eq!(r.buttons[i].value, s.buttons[i].value);
        assert_eq!(r.buttons[i].debounce, s.buttons[i].debounce);
    }
    // the flags byte keeps its other bits
    assert_eq!(cfg.blob[22], (0x77 & !0x11) | 0x10);
    // bytes that no setting covers are untouched
    assert_eq!(cfg.blob[0], 0x77);
    assert_eq!(cfg.blob[50], 0x77);
    assert_eq!(cfg.blob[0x86], 0x77);
}

#[test]
fn apply_with_fewer_entries_keeps_the_rest() {
    let mut cfg = Config { blob: [0x11u8; CONFIG_SIZE] };
    let mut s = sample_settings();
    s.cpis.truncate(1);
    s.buttons.truncate(2);
    cfg.apply_settings(&s);
    assert_eq!(&cfg.blob[51..56], &[1, 0xC2, 0x01, 0x84, 0x03]);
    assert_eq!(&cfg.blob[56..61], &[0x11; 5]);
    assert_eq!(&cfg.blob[0x7F..0x86], &[0, 0, 0, 0, 0, 0, 8]);
    assert_eq!(&cfg.blob[0x4E..0x55], &[2, 3, 0x19, 0, 0, 0, 8]);
    assert_eq!(&cfg.blob[0x55..0x5C], &[0x11; 7]);
}

#[test]
fn factory_settings_read() {
    let e = EmuTransport::new();
    let s = emu_config(&e).to_settings();
    assert_eq!(s.polling_hz, 4000);
    assert!(s.slamclick && s.jitter);
    assert_eq!(s.lod, 1);
    assert_eq!(s.cpi_levels, 4);
    let xs: Vec<u16> = s.cpis.iter().map(|c| c.x).collect();
    assert_eq!(xs, vec![400, 800, 1600, 3200]);
    assert_eq!(s.buttons[5].kind, 9);
    assert_eq!(s.buttons[7].value, [0xFF, 0, 0, 0, 0]);
    assert_eq!(s.buttons[0].debounce, 0);
}

#[test]
fn button_constructors() {
    let k = ButtonCfg::key(1, 0x1A); // W: HID usage 0x1A, stored as 0x19
    assert_eq!((k.kind, k.value, k.debounce), (2, [1, 0x19, 0, 0, 0], 8));
    assert_eq!(interpret_slot(&[k.kind, k.value[0], k.value[1], 0, 0, 0, k.debounce]), "Ctrl+W");
    assert_eq!(ButtonCfg::key(0, 0).value, [0, 0xFF, 0, 0, 0]);
    let m = ButtonCfg::mouse(4);
    assert_eq!((m.kind, m.value, m.debounce), (0, [4, 0, 0, 0, 0], 8));
    let s = ButtonCfg::scroll(0xFF);
    assert_eq!((s.kind, s.value), (1, [0xFF, 0, 0, 0, 0]));
    assert_eq!(ButtonCfg::cpi_loop().kind, 9);
    assert_eq!(ButtonCfg::disabled().kind, 0xFF);
    let mut blob = [0u8; CONFIG_SIZE];
    k.to_blob(&mut blob, 100);
    assert_eq!(&blob[100..107], &[2, 1, 0x19, 0, 0, 0, 8]);
    let back = ButtonCfg::from_blob(&blob, 100);
    assert_eq!((back.kind, back.value, back.debounce), (2, [1, 0x19, 0, 0, 0], 8));
}

#[test]
fn divider_mapping() {
    assert_eq!(Config::divider_to_hz(1), 8000);
    assert_eq!(Config::divider_to_hz(2), 4000);
    assert_eq!(Config::divider_to_hz(4), 2000);
    assert_eq!(Config::divider_to_hz(8), 1000);
    assert_eq!(Config::divider_to_hz(3), 1000);
    assert_eq!(Config::hz_to_divider(8000), 1);
    assert_eq!(Config::hz_to_divider(2000), 4);
    assert_eq!(Config::hz_to_divider(1234), 8);
    assert_eq!(button_offset(0), 0x7F);
    assert_eq!(button_offset(3), 0x5C);
}

#[test]
fn exchange_commands() {
    let r = read_config_exchange();
    assert_eq!((r.report_id, r.payload.clone(), r.settle_ms, r.reply_size), (0xA1, vec![0x12], 100, 1041));
    let f = fw_version_exchange();
    assert_eq!((f.payload.clone(), f.settle_ms, f.reply_size), (vec![0x02], 50, 64));
    let z = factory_reset_exchange();
    assert_eq!((z.payload.clone(), z.settle_ms), (vec![0x13], 400));
    assert_eq!(REPORT_ID, 0xA1);
}

#[test]
fn sensor_payload_layout() {
    let mut blob = [0u8; CONFIG_SIZE];
    for (i, b) in blob.iter_mut().enumerate() {
        *b = (i % 251) as u8;
    }
    let cfg = Config { blob };
    let x = sensor_exchange(&cfg);
    let p = &x.payload;
    assert_eq!(p.len(), 63);
    assert_eq!(&p[0..3], &[0x14, 0x0F, 0x1C]);
    assert_eq!(&p[15..20], &blob[0x17..0x1C]);
    assert_eq!(p[20], 0);
    assert_eq!(p[21], blob[0x1E]);
    assert_eq!(p[22], blob[0x1D]);
    assert_eq!(&p[23..43], &blob[0x33..0x47]);
    assert_eq!(&p[43..47], &[0, 0, 0, 0]);
    assert_eq!((x.settle_ms, x.reply_size), (150, 64));
}

#[test]
fn button_payload_layout() {
    let mut blob = [0u8; CONFIG_SIZE];
    for (i, b) in blob.iter_mut().enumerate() {
        *b = (i % 253) as u8;
    }
    let cfg = Config { blob };
    let xs = button_exchanges(&cfg);
    assert_eq!(xs.len(), 2);
    for (k, x) in xs.iter().enumerate() {
        let part = k as u8 + 1;
        let src = 0x47 + k * 28;
        assert_eq!(x.payload.len(), 63);
        assert_eq!(&x.payload[0..3], &[0x16, 0x0F, 0x1C]);
        assert_eq!(x.payload[5], part);
        assert_eq!(&x.payload[15..43], &blob[src..src + 28]);
        assert_eq!((x.settle_ms, x.after_ms), (100, 100));
    }
}

#[test]
fn apply_path_through_exchanges() {
    let mut e = EmuTransport::new();
    let mut cfg = emu_config(&e);
    let s = sample_settings();
    cfg.apply_settings(&s);
    let x = sensor_exchange(&cfg);
    e.set_feature(x.report_id, &x.payload).unwrap();
    for x in button_exchanges(&cfg) {
        e.set_feature(x.report_id, &x.payload).unwrap();
    }
    let r = read_config_exchange();
    e.set_feature(r.report_id, &r.payload).unwrap();
    let reply = e.get_feature(r.report_id, r.reply_size).unwrap();
    let back = config_from_reply(&reply).unwrap().to_settings();
    // carried by the exchanges
    assert_eq!(back.lod, 2);
    assert!(back.angle_snapping && !back.ripple);
    assert_eq!(back.cpi_levels, 3);
    assert_eq!(back.cpis[2].x, 26000);
    assert_eq!(back.buttons[1].value, [3, 0x19, 0, 0, 0]);
    assert_eq!(back.buttons[7].kind, 7);
    // not carried: the device keeps its own
    assert_eq!(back.polling_hz, 4000);
    assert!(back.slamclick && back.jitter && !back.motion_sync);
    assert_eq!(back.buttons[0].debounce, 0);
}

#[test]
fn short_config_reply_is_an_error() {
    let err = config_from_reply(&[0u8; 10]).err().unwrap();
    assert_eq!(err, "config read: got 10 bytes");
    let ok = config_from_reply(&vec![9u8; 2000]).ok().unwrap();
    assert!(ok.blob.iter().all(|&b| b == 9));
}

#[test]
fn fw_version_text() {
    let mut e = EmuTransport::new();
    let x = fw_version_exchange();
    e.set_feature(x.report_id, &x.payload).unwrap();
    let r = e.get_feature(x.report_id, x.reply_size).unwrap();
    assert_eq!(fw_version_from_reply(&r).unwrap(), "16.1 (id 0x1001)");
    assert_eq!(fw_version_from_reply(&r[..18]).err().unwrap(), "fw version read failed");
    let mut bad = r.clone();
    bad[1] = 0;
    assert!(fw_version_from_reply(&bad).is_err());
    let mut other = r.clone();
    other[17] = 0xAB;
    other[18] = 0x0C;
    assert_eq!(fw_version_from_reply(&other).unwrap(), "171.12 (id 0xab0c)");
}

#[test]
fn binding_descriptions() {
    assert_eq!(interpret_slot(&[0, 7, 0, 0, 0, 0, 8]), "Mouse 0x07");
    assert_eq!(interpret_slot(&[5, 0, 0, 0, 0, 0, 8]), "Kind 0x05");
    assert_eq!(interpret_slot(&[0xFF, 0, 0, 0, 0, 0, 8]), "Disabled");
    assert_eq!(interpret_slot(&[1, 1, 0, 0, 0, 0, 8]), "Scroll up");
    assert_eq!(interpret_slot(&[1, 0xFF, 0, 0, 0, 0, 8]), "Scroll down");
    assert_eq!(interpret_slot(&[2, 0x0F, 0x44, 0, 0, 0, 8]), "Ctrl+Shift+Alt+Win+F12");
    assert_eq!(interpret_slot(&[2, 0x02, 0x2B, 0, 0, 0, 8]), "Shift+Space");
    assert_eq!(key_name(3), "A");
    assert_eq!(key_name(0x1D), "1");
    assert_eq!(key_name(0x25), "9");
    assert_eq!(key_name(0x26), "0");
    assert_eq!(key_name(0x1C), "Z");
    assert_eq!(key_name(0x27), "Enter");
    assert_eq!(key_name(0x28), "Esc");
    assert_eq!(key_name(0x29), "Backspace");
    assert_eq!(key_name(0x2A), "Tab");
    assert_eq!(key_name(0x39), "F1");
    assert_eq!(key_name(0xFF), "0x00");
    assert_eq!(key_name(0x63), "0x64");
}

#[test]
fn press_out_of_range_message() {
    let mut e = EmuTransport::new();
    assert_eq!(e.press(8).err().unwrap(), "slot 8 out of range");
    assert_eq!(e.press(123).err().unwrap(), "slot 123 out of range");
}

#[test]
fn emulator_switch() {
    let mut slot: Option<EmuTransport> = None;
    assert!(!emu_enabled(&slot));
    emu_set(&mut slot, true);
    assert!(emu_enabled(&slot));
    assert_eq!(slot.as_ref().unwrap().blob[..], factory_blob()[..]);
    emu_set(&mut slot, false);
    assert!(!emu_enabled(&slot));
}

#[test]
fn queued_reply_stays_until_reset() {
    let mut e = EmuTransport::new();
    let plain = e.get_feature(0xA1, 5).unwrap();
    assert_eq!(plain, vec![0xA1, 0x01, 0, 0, 0]);
    e.set_feature(0xA1, &[0x02]).unwrap();
    let a = e.get_feature(0xA1, 64).unwrap();
    let b = e.get_feature(0xA1, 100).unwrap();
    assert_eq!(a, b);
    assert_eq!(a.len(), 64);
    e.set_feature(0xA1, &[0x12]).unwrap();
    assert_eq!(e.get_feature(0xA1, 20000).unwrap().len(), BLOB_SIZE);
    e.set_feature(0xA1, &[0x13]).unwrap();
    assert_eq!(e.get_feature(0xA1, 3).unwrap(), vec![0xA1, 0x01, 0]);
}

#[test]
fn other_commands() {
    let mut e = EmuTransport::new();
    let before = e.blob;
    e.set_feature(0xA0, &[0x16, 0x0F, 0x1C, 0, 0, 1, 0, 0, 0, 0, 0, 0, 0, 0, 0, 9]).unwrap();
    assert_eq!(e.blob[..], before[..]);
    // too short a button write is ignored
    e.set_feature(0xA1, &[0x16, 0x0F, 0x1C, 0, 0, 1]).unwrap();
    assert_eq!(e.blob[..], before[..]);
    let mut p = vec![0u8; 43];
    p[0..3].copy_from_slice(&[0x15, 0x0F, 0x1C]);
    for i in 15..43 {
        p[i] = i as u8;
    }
    e.set_feature(0xA1, &p).unwrap();
    assert_eq!(&e.blob[0x814..0x81E], &p[15..25]);
    assert_eq!(&e.blob[0x909..0x90C], &p[25..28]);
    assert_eq!(e.blob[0x81E], before[0x81E]);
}

#[test]
fn factory_blob_cpis() {
    let b = factory_blob();
    assert_eq!(&b[51..56], &[0, 0x90, 0x01, 0x90, 0x01]);
    assert_eq!(&b[66..71], &[0, 0x80, 0x0C, 0x80, 0x0C]);
    assert_eq!(&b[0x6A..0x71], &[9, 0xF1, 0, 0, 0, 0, 8]);
}

#[test]
fn sensor_block_tail_is_ignored() {
    let mut e1 = EmuTransport::new();
    let mut e2 = EmuTransport::new();
    let mut b1 = [0x21u8; 32];
    let mut b2 = [0x21u8; 32];
    b1[28..32].copy_from_slice(&[1, 2, 3, 4]);
    b2[28..32].copy_from_slice(&[9, 9, 9, 9]);
    e1.write_sensor_block(&b1);
    e2.write_sensor_block(&b2);
    assert_eq!(e1.blob[..], e2.blob[..]);
    assert_eq!(&e1.blob[0x924..0x928], &[0x21; 4]);
    assert_eq!(e1.blob[0x928], factory_blob()[0x928]);
}

#[test]
fn raw_hex() {
    assert_eq!(hex_string(&[0x00, 0xA1, 0x7f, 0x10]), "00a17f10");
    assert_eq!(hex_string(&[]), "");
}

#[test]
fn interface_choice() {
    assert_eq!(open_order(&[0, 1, 2, 1]), vec![2, 1, 3, 0]);
    assert_eq!(open_order(&[]), Vec::<usize>::new());
    assert_eq!(preferred_interface(&[None, Some((1, 2)), Some((1, 6)), Some((1, 6))]), 2);
    assert_eq!(preferred_interface(&[Some((0xFF01, 1)), None]), 0);
}

#[test]
fn apply_exchanges_in_order() {
    let mut e = EmuTransport::new();
    let mut cfg = emu_config(&e);
    cfg.apply_settings(&sample_settings());
    let xs = apply_exchanges(&cfg);
    assert_eq!(xs.len(), 3);
    assert_eq!(&xs[0].payload[0..3], &[0x14, 0x0F, 0x1C]);
    assert_eq!((xs[1].payload[5], xs[2].payload[5]), (1, 2));
    for x in &xs {
        e.set_feature(x.report_id, &x.payload).unwrap();
    }
    assert_eq!(&e.blob[0x33..0x7F], &cfg.blob[0x33..0x7F]);
    // no write command reaches the divider: the device keeps its rate
    assert_eq!(e.blob[21], 2);
}
