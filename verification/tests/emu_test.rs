use xm2w::xm2w::emu::{EmuTransport, FW_MAJOR, FW_MINOR};
use xm2w::xm2w::{ButtonCfg, Config, CpiLevel, DeviceSettings, Transport};

fn fresh() -> EmuTransport {
    EmuTransport::new()
}

fn settings(buttons: Vec<ButtonCfg>) -> DeviceSettings {
    DeviceSettings {
        polling_hz: 4000,
        lod: 1,
        slamclick: true,
        jitter: true,
        angle_snapping: false,
        ripple: false,
        motion_sync: false,
        cpi_levels: 4,
        cpis: vec![
            CpiLevel { split: false, x: 200, y: 200 },
            CpiLevel { split: false, x: 400, y: 400 },
            CpiLevel { split: false, x: 800, y: 800 },
            CpiLevel { split: false, x: 1600, y: 1600 },
        ],
        buttons,
    }
}

fn custom_buttons() -> Vec<ButtonCfg> {
    vec![
        ButtonCfg { debounce: 8, kind: 0, value: [0, 0, 0, 0, 0] },    // Left (locked)
        ButtonCfg { debounce: 8, kind: 2, value: [1, 25, 0, 0, 0] },   // Right = Ctrl+W
        ButtonCfg { debounce: 8, kind: 0, value: [4, 0, 0, 0, 0] },    // Middle
        ButtonCfg { debounce: 8, kind: 2, value: [0, 36, 0, 0, 0] },   // Back = key 8
        ButtonCfg { debounce: 8, kind: 2, value: [0, 37, 0, 0, 0] },   // Forward = key 9
        ButtonCfg { debounce: 8, kind: 9, value: [0xF1, 0, 0, 0, 0] }, // DPI
        ButtonCfg { debounce: 8, kind: 1, value: [1, 0, 0, 0, 0] },    // Up
        ButtonCfg { debounce: 8, kind: 1, value: [0xFF, 0, 0, 0, 0] }, // Down
    ]
}

#[test]
fn factory_state_is_sane() {
    let e = fresh();
    assert_eq!(e.blob[0x21], 0x02, "divider");
    assert_eq!(e.blob[0x22], 0x11, "flags");
    assert_eq!(e.blob[0x30], 0x04, "cpi levels");
    // verified layout: Right@0x4E, Middle@0x55, Back@0x5C, Forward@0x63
    assert_eq!(&e.blob[0x4E..0x55], &[0, 2, 0, 0, 0, 0, 8], "Right");
    assert_eq!(&e.blob[0x5C..0x63], &[0, 8, 0, 0, 0, 0, 8], "Back");
    assert_eq!(&e.blob[0x63..0x6A], &[0, 0x10, 0, 0, 0, 0, 8], "Forward");
    assert_eq!(&e.blob[0x7F..0x86], &[0, 0, 0, 0, 0, 0, 0], "Left");
}

#[test]
fn fw_version_read() {
    let mut e = fresh();
    e.set_feature(0xA1, &[0x02]).unwrap();
    let r = e.get_feature(0xA1, 64).unwrap();
    assert_eq!(r[1], 1);
    assert_eq!(r[17], FW_MAJOR);
    assert_eq!(r[18], FW_MINOR);
}

#[test]
fn factory_reset_restores() {
    let mut e = fresh();
    let mut arr0 = [0u8; 1041];
    arr0.copy_from_slice(&e.blob[..1041]);
    let mut cfg = Config { blob: arr0 };
    cfg.apply_settings(&settings(custom_buttons()));
    e.write_button_part(1, &cfg.blob[0x47..0x63]);
    e.write_button_part(2, &cfg.blob[0x63..0x7F]);
    assert_eq!(&e.blob[0x4E..0x55], &[2, 1, 25, 0, 0, 0, 8], "Right = Ctrl+W");
    assert_eq!(&e.blob[0x5C..0x63], &[2, 0, 36, 0, 0, 0, 8], "Back = key 8");
    assert_eq!(&e.blob[0x63..0x6A], &[2, 0, 37, 0, 0, 0, 8], "Forward = key 9");
    e.set_feature(0xA1, &[0x13]).unwrap();
    assert_eq!(&e.blob[0x4E..0x55], &[0, 2, 0, 0, 0, 0, 8], "reset -> Right");
}

#[test]
fn part_writes_hit_all_mirrors() {
    let mut e = fresh();
    let block = [0x5Au8; 28];
    e.write_button_part(1, &block);
    assert_eq!(&e.blob[0x47..0x63], &block[..], "main part1");
    assert_eq!(&e.blob[0x44B..0x467], &block[..], "mirror A");
    assert_eq!(&e.blob[0x814..0x830], &block[..], "mirror B");
    assert_eq!(&e.blob[0x92E..0x935], &block[0..7], "C chunk 0");
    assert_eq!(&e.blob[0x936..0x93D], &block[7..14], "C chunk 1");
    assert_eq!(&e.blob[0x93E..0x945], &block[14..21], "C chunk 2");
    assert_eq!(&e.blob[0x946..0x94D], &block[21..28], "C chunk 3");
    // other parts only touch B
    e.write_button_part(9, &block);
    assert_eq!(&e.blob[0x47..0x63], &block[..], "main untouched by part 9");
    assert_eq!(&e.blob[0x814..0x830], &block[..], "B still block");
}

#[test]
fn sensor_write_maps_regions() {
    let mut e = fresh();
    let mut block = [0u8; 32];
    block[..28].fill(0x3C);
    e.write_sensor_block(&block);
    assert!(e.blob[0x17..0x1C].iter().all(|&x| x == 0x3C));
    assert!(e.blob[0x33..0x47].iter().all(|&x| x == 0x3C));
    assert!(e.blob[0x814..0x830].iter().all(|&x| x == 0x3C));
}

#[test]
fn press_interprets_binds() {
    let mut e = fresh();
    assert_eq!(e.press(0).unwrap(), "Left click");
    assert_eq!(e.press(1).unwrap(), "Right click");
    assert_eq!(e.press(3).unwrap(), "Back");
    assert_eq!(e.press(4).unwrap(), "Forward");
    assert_eq!(e.press(5).unwrap(), "DPI cycle");
    // bind Back (0x5C) = Ctrl+W and press it
    let off = 0x5C;
    e.blob[off..off + 7].copy_from_slice(&[2, 1, 25, 0, 0, 0, 8]);
    assert_eq!(e.press(3).unwrap(), "Ctrl+W");
    // key 9: usage 0x26 -> dev code 0x25 = 37
    e.blob[off..off + 7].copy_from_slice(&[2, 0, 37, 0, 0, 0, 8]);
    assert_eq!(e.press(3).unwrap(), "9");
    assert!(e.press(8).is_err());
}

#[test]
fn back_button_via_part1() {
    // the Back button lives at 0x5C..0x62 and is written by part 1's
    // last 7 bytes (block[21..27])
    let mut e = fresh();
    let mut block = [0x00u8; 28];
    block[21..28].copy_from_slice(&[2, 0, 36, 0, 0, 0, 8]); // key 8
    e.write_button_part(1, &block);
    assert_eq!(&e.blob[0x5C..0x63], &[2, 0, 36, 0, 0, 0, 8], "Back = key 8");
    assert_eq!(e.press(3).unwrap(), "8", "rear button now types 8");
    // write Forward = key 9 via part 2's first bytes
    let mut block2 = [0x00u8; 28];
    block2[0..7].copy_from_slice(&[2, 0, 37, 0, 0, 0, 8]);
    e.write_button_part(2, &block2);
    assert_eq!(e.press(4).unwrap(), "9", "front button types 9");
}

#[test]
fn set_feature_payload_offsets() {
    // the app builds: [0xA1][cmd 3B][0][part][9 zeros][block 28B] and sends
    // buf[1..] as payload -> block lands at payload[15..43]
    let mut e = fresh();
    let mut payload = vec![0u8; 43];
    payload[0..3].copy_from_slice(&[0x16, 0x0F, 0x1C]);
    payload[5] = 2; // part
    payload[15..43].fill(0x6B);
    e.set_feature(0xA1, &payload).unwrap();
    assert_eq!(&e.blob[0x63..0x7F], &payload[15..43], "part 2 lands at 0x63");
    assert_eq!(&e.blob[0x814..0x830], &payload[15..43], "B mirror");
    // fw version
    let mut e2 = fresh();
    e2.set_feature(0xA1, &[0x02]).unwrap();
    let r = e2.get_feature(0xA1, 64).unwrap();
    assert_eq!(r[17], FW_MAJOR);
}

#[test]
fn config_roundtrip_via_parts() {
    // simulate the app's apply path against the transport
    let mut e = fresh();
    let s = settings(custom_buttons());
    let mut arr0 = [0u8; 1041];
    arr0.copy_from_slice(&e.blob[..1041]);
    let mut cfg = Config { blob: arr0 };
    cfg.apply_settings(&s);
    // sensor/CPI block exactly like the app's write_sensor
    let mut block = [0u8; 32];
    block[0..5].copy_from_slice(&cfg.blob[0x17..0x1C]);
    block[6] = cfg.blob[0x1E];
    block[7] = cfg.blob[0x1D];
    block[8..28].copy_from_slice(&cfg.blob[0x33..0x47]);
    e.write_sensor_block(&block);
    e.write_button_part(1, &cfg.blob[0x47..0x63]);
    e.write_button_part(2, &cfg.blob[0x63..0x7F]);
    // read back via the transport's view (as the app does)
    e.set_feature(0xA1, &[0x12]).unwrap();
    let back = e.get_feature(0xA1, 1041).unwrap();
    let mut arr = [0u8; 1041];
    arr.copy_from_slice(&back[..1041]);
    let cfg2 = Config { blob: arr };
    let s2 = cfg2.to_settings();
    assert_eq!(s2.buttons[1].kind, 2);
    assert_eq!(s2.buttons[1].value, [1, 25, 0, 0, 0]);
    assert_eq!(s2.buttons[3].value, [0, 36, 0, 0, 0]); // Back = key 8
    assert_eq!(s2.buttons[4].value, [0, 37, 0, 0, 0]); // Forward = key 9
    assert_eq!(s2.cpis[0].x, 200);
    assert_eq!(s2.polling_hz, 4000);
}
