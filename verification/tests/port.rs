use serial_term::port::{chip_db, chip_for_vid_pid, PortDevice};

#[test]
fn chip_mapping_known_devices() {
    let cases = [
        (0x1A86, 0x7523, "WCH CH340"),
        (0x10C4, 0xEA60, "Silicon Labs CP2102/CP210x"),
        (0x0403, 0x6001, "FTDI FT232R"),
        (0x067B, 0x2303, "Prolific PL2303"),
        (0x303A, 0x1001, "Espressif ESP32-C3 (USB Serial/JTAG)"),
        (0x303A, 0x0003, "Espressif ESP32-S3 (USB Serial)"),
        (0x0483, 0x5740, "ST STM32 VCP (Virtual COM Port)"),
        (0x2E8A, 0x000A, "Raspberry Pi Pico (RP2040 CDC)"),
    ];
    for (vid, pid, expected) in cases {
        let got = chip_for_vid_pid(vid, pid).expect("映射缺失");
        assert_eq!(got, expected, "VID={:04X} PID={:04X}", vid, pid);
    }
}

#[test]
fn chip_mapping_unknown_returns_none() {
    assert!(chip_for_vid_pid(0xFFFF, 0xFFFF).is_none());
    assert!(chip_for_vid_pid(0x0000, 0x0000).is_none());
}

#[test]
fn chip_db_no_duplicates() {
    let mut seen = std::collections::HashSet::new();
    for (vid, pid, _) in chip_db() {
        let key = (vid, pid);
        assert!(seen.insert(key), "重复映射 VID={:04X} PID={:04X}", vid, pid);
    }
}

#[test]
fn vid_pid_formatting() {
    let d = PortDevice {
        name: "COM6".into(),
        kind: "USB",
        chip: None,
        manufacturer: None,
        product: None,
        serial: None,
        vid: Some(format!("{:04X}", 0x303A)),
        pid: Some(format!("{:04X}", 0x1001)),
    };
    let s = d.summary().unwrap();
    assert!(s.contains("VID:303A PID:1001"), "摘要: {}", s);
}

#[test]
fn summary_none_when_no_info() {
    let d = PortDevice {
        name: "COM6".into(),
        kind: "USB",
        chip: None,
        manufacturer: None,
        product: None,
        serial: None,
        vid: None,
        pid: None,
    };
    assert!(d.summary().is_none());
}

#[test]
fn summary_joins_known_parts_in_order() {
    let d = PortDevice {
        name: "COM3".into(),
        kind: "USB",
        chip: Some("WCH CH340".into()),
        manufacturer: Some("wch.cn".into()),
        product: Some("USB-SERIAL".into()),
        serial: None,
        vid: Some("1A86".into()),
        pid: Some("7523".into()),
    };
    assert_eq!(d.summary().unwrap(), "WCH CH340 · USB-SERIAL · wch.cn · VID:1A86 PID:7523");
    assert_eq!(d.name(), "COM3");
}
