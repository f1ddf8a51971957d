//! Serial port parameters and device descriptions.
use vstd::prelude::*;
use crate::text::{hex4, hex4_string, owned, push_str, str_eq};

verus! {

broadcast use vstd::string::group_string_axioms;

/// Serial connection parameters.
#[derive(Debug, Clone)]
pub struct PortParams {
    pub name: String,
    pub baud: u32,
    pub databits: u8,
    pub stopbits: String,
    pub parity: String,
    pub flow: String,
}

/// Number of data bits per character.
#[derive(Debug, Clone, Copy, PartialEq, Eq, Structural)]
pub enum DataBitsSetting {
    Five,
    Six,
    Seven,
    Eight,
}

/// Number of stop bits.
#[derive(Debug, Clone, Copy, PartialEq, Eq, Structural)]
pub enum StopBitsSetting {
    One,
    Two,
}

/// Parity checking.
#[derive(Debug, Clone, Copy, PartialEq, Eq, Structural)]
pub enum ParitySetting {
    Off,
    Odd,
    Even,
}

/// Flow control.
#[derive(Debug, Clone, Copy, PartialEq, Eq, Structural)]
pub enum FlowSetting {
    Off,
    Software,
    Hardware,
}

/// The line settings a port is opened with.
#[derive(Debug, Clone, Copy, PartialEq, Eq, Structural)]
pub struct LineSettings {
    pub databits: DataBitsSetting,
    pub stopbits: StopBitsSetting,
    pub parity: ParitySetting,
    pub flow: FlowSetting,
}

/// Read timeout, in milliseconds, that a port is opened with.
pub const OPEN_TIMEOUT_MS: u64 = 60;

pub open spec fn databits_for(n: u8) -> DataBitsSetting {
    if n == 5 {
        DataBitsSetting::Five
    } else if n == 6 {
        DataBitsSetting::Six
    } else if n == 7 {
        DataBitsSetting::Seven
    } else {
        DataBitsSetting::Eight
    }
}

pub open spec fn stopbits_for(s: Seq<char>) -> StopBitsSetting {
    if s == "2"@ { StopBitsSetting::Two } else { StopBitsSetting::One }
}

pub open spec fn parity_for(s: Seq<char>) -> ParitySetting {
    if s == "odd"@ {
        ParitySetting::Odd
    } else if s == "even"@ {
        ParitySetting::Even
    } else {
        ParitySetting::Off
    }
}

pub open spec fn flow_for(s: Seq<char>) -> FlowSetting {
    if s == "software"@ {
        FlowSetting::Software
    } else if s == "hardware"@ {
        FlowSetting::Hardware
    } else {
        FlowSetting::Off
    }
}

impl PortParams {
    /// The line settings these parameters select; unrecognised values fall
    /// back to 8 data bits, 1 stop bit, no parity and no flow control.
    pub fn line_settings(&self) -> (s: LineSettings)
        ensures
            s.databits == databits_for(self.databits),
            s.stopbits == stopbits_for(self.stopbits@),
            s.parity == parity_for(self.parity@),
            s.flow == flow_for(self.flow@),
    {
        let stopbits = if str_eq(self.stopbits.as_str(), "2") {
            StopBitsSetting::Two
        } else {
            StopBitsSetting::One
        };
        let parity = if str_eq(self.parity.as_str(), "odd") {
            ParitySetting::Odd
        } else if str_eq(self.parity.as_str(), "even") {
            ParitySetting::Even
        } else {
            ParitySetting::Off
        };
        let flow = if str_eq(self.flow.as_str(), "software") {
            FlowSetting::Software
        } else if str_eq(self.flow.as_str(), "hardware") {
            FlowSetting::Hardware
        } else {
            FlowSetting::Off
        };
        let databits = if self.databits == 5 {
            DataBitsSetting::Five
        } else if self.databits == 6 {
            DataBitsSetting::Six
        } else if self.databits == 7 {
            DataBitsSetting::Seven
        } else {
            DataBitsSetting::Eight
        };
        LineSettings { databits, stopbits, parity, flow }
    }
}

/// A serial device: port name plus hardware / chip information.
#[derive(Debug, Clone)]
pub struct PortDevice {
    /// Port name, such as COM3 or /dev/ttyUSB0.
    pub name: String,
    /// Port type (USB / PCI / Bluetooth / unknown).
    pub kind: &'static str,
    /// Chip model from the VID/PID table.
    pub chip: Option<String>,
    pub manufacturer: Option<String>,
    pub product: Option<String>,
    pub serial: Option<String>,
    /// VID as four upper-case hexadecimal digits.
    pub vid: Option<String>,
    /// PID as four upper-case hexadecimal digits.
    pub pid: Option<String>,
}

/// `parts` joined with `sep` between neighbours.
pub open spec fn join(parts: Seq<Seq<char>>, sep: Seq<char>) -> Seq<char>
    decreases parts.len(),
{
    if parts.len() == 0 {
        Seq::empty()
    } else if parts.len() == 1 {
        parts[0]
    } else {
        join(parts.drop_last(), sep) + sep + parts.last()
    }
}

/// The value in an optional string, as a sequence of zero or one parts.
pub open spec fn opt_part(o: Option<String>) -> Seq<Seq<char>> {
    match o {
        Some(s) => seq![s@],
        None => Seq::empty(),
    }
}

/// The separator between summary parts.
pub open spec fn summary_sep() -> Seq<char> {
    " \u{b7} "@
}

impl PortDevice {
    /// The pieces of the summary: chip, product, manufacturer and, when both
    /// are known, `VID:<vid> PID:<pid>`.
    pub open spec fn summary_parts(self) -> Seq<Seq<char>> {
        opt_part(self.chip) + opt_part(self.product) + opt_part(self.manufacturer) + match (self.vid, self.pid) {
            (Some(v), Some(p)) => seq!["VID:"@ + v@ + " PID:"@ + p@],
            _ => Seq::empty(),
        }
    }

    pub fn name(&self) -> (r: &str)
        ensures
            r@ == self.name@,
    {
        self.name.as_str()
    }

    /// Device summary for the settings panel; `None` when nothing is known.
    pub fn summary(&self) -> (r: Option<String>)
        ensures
            self.summary_parts().len() == 0 ==> r is None,
            self.summary_parts().len() > 0 ==> (r matches Some(s) && s@ == join(self.summary_parts(), summary_sep())),
    {
        let mut parts: Vec<String> = Vec::new();
        match &self.chip {
            Some(c) => parts.push(c.clone()),
            None => {},
        }
        match &self.product {
            Some(p) => parts.push(p.clone()),
            None => {},
        }
        match &self.manufacturer {
            Some(m) => parts.push(m.clone()),
            None => {},
        }
        match (&self.vid, &self.pid) {
            (Some(v), Some(p)) => {
                let mut s = owned("VID:");
                push_str(&mut s, v.as_str());
                push_str(&mut s, " PID:");
                push_str(&mut s, p.as_str());
                parts.push(s);
            },
            _ => {},
        }
        assert(parts@.map_values(|s: String| s@) =~= self.summary_parts());
        if parts.len() == 0 {
            None
        } else {
            Some(join_strings(&parts, " \u{b7} "))
        }
    }
}

/// Joins strings with a separator.
pub fn join_strings(parts: &Vec<String>, sep: &str) -> (r: String)
    requires
        parts@.len() > 0,
    ensures
        r@ == join(parts@.map_values(|s: String| s@), sep@),
{
    let ghost vs = parts@.map_values(|s: String| s@);
    let mut r = parts[0].clone();
    let mut i: usize = 1;
    proof {
        assert(vs.take(1) =~= seq![vs[0]]);
    }
    while i < parts.len()
        invariant
            1 <= i <= parts@.len(),
            vs == parts@.map_values(|s: String| s@),
            r@ == join(vs.take(i as int), sep@),
        decreases parts@.len() - i,
    {
        push_str(&mut r, sep);
        push_str(&mut r, parts[i].as_str());
        proof {
            assert(vs.take(i + 1).drop_last() =~= vs.take(i as int));
            assert(vs.take(i + 1).last() == parts@[i as int]@);
        }
        i += 1;
    }
    proof {
        assert(vs.take(parts@.len() as int) =~= vs);
    }
    r
}

/// How the operating system reports a port.
#[derive(Debug, Clone)]
pub enum PortKind {
    Usb { vid: u16, pid: u16, manufacturer: Option<String>, product: Option<String>, serial_number: Option<String> },
    Pci,
    Bluetooth,
    Unknown,
}

impl PortDevice {
    /// The device description for a port the system reports: USB ports get
    /// their chip from the VID/PID table and their VID/PID as four hex digits.
    pub fn from_port(name: String, kind: PortKind) -> (d: PortDevice)
        ensures
            d.name@ == name@,
            match kind {
                PortKind::Usb { vid, pid, manufacturer, product, serial_number } => {
                    &&& d.kind@ == "USB"@
                    &&& opt_view(d.chip) == chip_lookup(chip_table(), vid, pid)
                    &&& d.manufacturer == manufacturer
                    &&& d.product == product
                    &&& d.serial == serial_number
                    &&& opt_view(d.vid) == Some(hex4(vid))
                    &&& opt_view(d.pid) == Some(hex4(pid))
                },
                _ => {
                    &&& d.kind@ == (match kind {
                        PortKind::Pci => "PCI/\u{677f}\u{8f7d}"@,
                        PortKind::Bluetooth => "\u{84dd}\u{7259}"@,
                        _ => "\u{672a}\u{77e5}"@,
                    })
                    &&& d.chip is None && d.manufacturer is None && d.product is None
                    &&& d.serial is None && d.vid is None && d.pid is None
                },
            },
    {
        match kind {
            PortKind::Usb { vid, pid, manufacturer, product, serial_number } => PortDevice {
                name,
                kind: "USB",
                chip: chip_for_vid_pid(vid, pid),
                manufacturer,
                product,
                serial: serial_number,
                vid: Some(hex4_string(vid)),
                pid: Some(hex4_string(pid)),
            },
            PortKind::Pci => PortDevice::bare(name, "PCI/\u{677f}\u{8f7d}"),
            PortKind::Bluetooth => PortDevice::bare(name, "\u{84dd}\u{7259}"),
            PortKind::Unknown => PortDevice::bare(name, "\u{672a}\u{77e5}"),
        }
    }

    fn bare(name: String, kind: &'static str) -> (d: PortDevice)
        ensures
            d.name == name,
            d.kind == kind,
            d.chip is None && d.manufacturer is None && d.product is None,
            d.serial is None && d.vid is None && d.pid is None,
    {
        PortDevice { name, kind, chip: None, manufacturer: None, product: None, serial: None, vid: None, pid: None }
    }
}

/// The view of an optional string.
pub open spec fn opt_view(o: Option<String>) -> Option<Seq<char>> {
    match o {
        Some(s) => Some(s@),
        None => None,
    }
}

/// The chip name of the first table entry with this VID and PID.
pub open spec fn chip_lookup(t: Seq<(u16, u16, &'static str)>, vid: u16, pid: u16) -> Option<Seq<char>>
    decreases t.len(),
{
    if t.len() == 0 {
        None
    } else if t[0].0 == vid && t[0].1 == pid {
        Some(t[0].2@)
    } else {
        chip_lookup(t.drop_first(), vid, pid)
    }
}

/// Chip model of a USB serial bridge from its VID and PID, if known.
pub fn chip_for_vid_pid(vid: u16, pid: u16) -> (r: Option<String>)
    ensures
        opt_view(r) == chip_lookup(chip_table(), vid, pid),
{
    let db = chip_db();
    let mut i: usize = 0;
    assert(db@.skip(0) =~= db@);
    while i < db.len()
        invariant
            0 <= i <= db@.len(),
            db@ == chip_table(),
            chip_lookup(chip_table(), vid, pid) == chip_lookup(db@.skip(i as int), vid, pid),
        decreases db@.len() - i,
    {
        let (v, p, name) = db[i];
        proof {
            assert(db@.skip(i as int)[0] == db@[i as int]);
            assert(db@.skip(i as int).drop_first() =~= db@.skip(i + 1));
        }
        if v == vid && p == pid {
            return Some(owned(name));
        }
        i += 1;
    }
    proof {
        assert(db@.skip(db@.len() as int) =~= Seq::<(u16, u16, &'static str)>::empty());
    }
    None
}

} // verus!

verus! {

/// The VID/PID table of common USB serial bridge chips.
pub open spec fn chip_table() -> Seq<(u16, u16, &'static str)> {
    seq![
        (0x1A86, 0x7523, "WCH CH340"),
        (0x1A86, 0x7522, "WCH CH340G"),
        (0x1A86, 0x7525, "WCH CH341"),
        (0x1A86, 0x55D3, "WCH CH342"),
        (0x1A86, 0x55D4, "WCH CH9102"),
        (0x1A86, 0x55D5, "WCH CH9103"),
        (0x1A86, 0x55E0, "WCH CH9101"),
        (0x1A86, 0x55D6, "WCH CH9143"),
        (0x1A86, 0x7524, "WCH CH9344"),
        (0x1A86, 0x5512, "WCH CH9340"),
        (0x1A86, 0x55D7, "WCH CH9434"),
        (0x1A86, 0x5524, "WCH CH9326"),
        (0x0D6F, 0x0005, "WCH CH9101"),
        (0x10C4, 0xEA60, "Silicon Labs CP2102/CP210x"),
        (0x10C4, 0xEA70, "Silicon Labs CP2105"),
        (0x10C4, 0xEA71, "Silicon Labs CP2108"),
        (0x10C4, 0xEA80, "Silicon Labs CP2110"),
        (0x10C4, 0xEA90, "Silicon Labs CP2615"),
        (0x10C4, 0xEA7A, "Silicon Labs EFM32"),
        (0x10C4, 0xEA7B, "Silicon Labs Gecko"),
        (0x10C4, 0x84C4, "Silicon Labs USB-UART"),
        (0x0403, 0x6001, "FTDI FT232R"),
        (0x0403, 0x6010, "FTDI FT2232C"),
        (0x0403, 0x6011, "FTDI FT4232"),
        (0x0403, 0x6014, "FTDI FT232H"),
        (0x0403, 0x6015, "FTDI FT230X"),
        (0x0403, 0x601C, "FTDI FT231X"),
        (0x0403, 0x6004, "FTDI FT232B"),
        (0x0403, 0x6006, "FTDI FT232BM"),
        (0x0403, 0x6016, "FTDI FT2232H"),
        (0x0403, 0x6018, "FTDI FT2233H"),
        (0x0403, 0x601F, "FTDI FT2232D"),
        (0x0403, 0xCB48, "FTDI FT232F"),
        (0x067B, 0x2303, "Prolific PL2303"),
        (0x1BCB, 0x0001, "Prolific PL2303HXA"),
        (0x0658, 0x0200, "Prolific PL2303GC"),
        (0x0658, 0x0201, "Prolific PL2303GS"),
        (0x0658, 0x0202, "Prolific PL2303GB"),
        (0x067B, 0x23A3, "Prolific PL2303TA"),
        (0x067B, 0x23B3, "Prolific PL2303TB"),
        (0x067B, 0x23C3, "Prolific PL2303TC"),
        (0x303A, 0x0001, "Espressif ESP32-C3 (USB Serial)"),
        (0x303A, 0x0002, "Espressif ESP32-S2 (USB Serial)"),
        (0x303A, 0x0003, "Espressif ESP32-S3 (USB Serial)"),
        (0x303A, 0x0004, "Espressif ESP32-C6 (USB Serial)"),
        (0x303A, 0x0005, "Espressif ESP32-H2 (USB Serial)"),
        (0x303A, 0x0006, "Espressif ESP32-C2 (USB Serial)"),
        (0x303A, 0x0009, "Espressif ESP32-P4 (USB Serial)"),
        (0x303A, 0x1001, "Espressif ESP32-C3 (USB Serial/JTAG)"),
        (0x303A, 0x1002, "Espressif ESP32-S2 (USB Serial/JTAG)"),
        (0x303A, 0x1003, "Espressif ESP32-S3 (USB Serial/JTAG)"),
        (0x303A, 0x1004, "Espressif ESP32-C6 (USB Serial/JTAG)"),
        (0x303A, 0x1005, "Espressif ESP32-H2 (USB Serial/JTAG)"),
        (0x303A, 0x1006, "Espressif ESP32-C2 (USB Serial/JTAG)"),
        (0x303A, 0x1009, "Espressif ESP32-P4 (USB Serial/JTAG)"),
        (0x0483, 0x5740, "ST STM32 VCP (Virtual COM Port)"),
        (0x0483, 0x5741, "ST STM32 USB CDC"),
        (0x0483, 0x374B, "ST ST-LINK/V2"),
        (0x0483, 0x374E, "ST ST-LINK/V3"),
        (0x0483, 0x3748, "ST ST-LINK/V2"),
        (0x0483, 0x3747, "ST ST-LINK"),
        (0x0483, 0x374A, "ST Nucleo Virtual COM"),
        (0x0483, 0x572B, "ST Motor Control VCP"),
        (0x0483, 0x5750, "ST STM32 Discovery"),
        (0x03EB, 0x2104, "Microchip MCP2200"),
        (0x03EB, 0x2120, "Microchip MCP2221"),
        (0x03EB, 0x2404, "Microchip SAMD USB CDC"),
        (0x03EB, 0x6124, "Microchip AVR (CDC)"),
        (0x03EB, 0x6127, "Microchip AVR (Caterina/Leonardo)"),
        (0x03EB, 0x2044, "Microchip AVR (Mega)"),
        (0x03EB, 0x2144, "Microchip AVR (Uno R3)"),
        (0x16C0, 0x0483, "Teensy (AVR)"),
        (0x16C0, 0x0484, "Teensy (USB Serial)"),
        (0x16C0, 0x04D0, "Arduino/Genuino Uno"),
        (0x2341, 0x0043, "Arduino Uno R3 (ATmega328P)"),
        (0x2341, 0x0001, "Arduino Uno"),
        (0x2341, 0x0243, "Arduino Mega 2560"),
        (0x2341, 0x0042, "Arduino Mega 2560 R3"),
        (0x2341, 0x0041, "Arduino Mega ADK"),
        (0x2341, 0x0036, "Arduino Leonardo"),
        (0x2341, 0x8036, "Arduino Leonardo (old)"),
        (0x2341, 0x0039, "Arduino Micro"),
        (0x2341, 0x8037, "Arduino Micro (old)"),
        (0x2341, 0x003B, "Arduino Nano Every"),
        (0x2341, 0x0058, "Arduino Nano BLE"),
        (0x1A86, 0x55D2, "Arduino (WCH)"),
        (0x2A03, 0x0043, "Arduino Uno (AVR ISP)"),
        (0x15A2, 0x0042, "NXP Freescale (CDC)"),
        (0x15A2, 0x0073, "NXP FRDM-KL25Z"),
        (0x15A2, 0x0076, "NXP FRDM-K64F"),
        (0x15A2, 0x0033, "NXP LPC (CDC)"),
        (0x0D28, 0x0204, "NXP mbed"),
        (0x1D50, 0x60C4, "TI MSP430 (MSP-EXP432)"),
        (0x0451, 0xF432, "TI MSP432 LaunchPad"),
        (0x0451, 0xC32A, "TI Tiva/Stellaris"),
        (0x0451, 0x16C2, "TI CC3200"),
        (0x2E8A, 0x000A, "Raspberry Pi Pico (RP2040 CDC)"),
        (0x2E8A, 0x0005, "Raspberry Pi Pico (RP2040)"),
        (0x2E8A, 0x0007, "Raspberry Pi Pico W (RP2040)"),
        (0x2E8A, 0x000D, "Raspberry Pi Pico (Picoprobe)"),
        (0x2E8A, 0x0003, "Raspberry Pi Pico (BOOTSEL)"),
        (0x04F3, 0x4000, "ELAN"),
        (0x413C, 0x2106, "Dell"),
        (0x0461, 0x4A2A, "HP"),
        (0x0FE4, 0x0178, "Jolla"),
        (0x0403, 0x600A, "FTDI FT232L"),
    ]
}

/// The VID/PID table of common USB serial bridge chips, in lookup order.
pub fn chip_db() -> (db: Vec<(u16, u16, &'static str)>)
    ensures
        db@ == chip_table(),
{
    vec![
        (0x1A86, 0x7523, "WCH CH340"),
        (0x1A86, 0x7522, "WCH CH340G"),
        (0x1A86, 0x7525, "WCH CH341"),
        (0x1A86, 0x55D3, "WCH CH342"),
        (0x1A86, 0x55D4, "WCH CH9102"),
        (0x1A86, 0x55D5, "WCH CH9103"),
        (0x1A86, 0x55E0, "WCH CH9101"),
        (0x1A86, 0x55D6, "WCH CH9143"),
        (0x1A86, 0x7524, "WCH CH9344"),
        (0x1A86, 0x5512, "WCH CH9340"),
        (0x1A86, 0x55D7, "WCH CH9434"),
        (0x1A86, 0x5524, "WCH CH9326"),
        (0x0D6F, 0x0005, "WCH CH9101"),
        (0x10C4, 0xEA60, "Silicon Labs CP2102/CP210x"),
        (0x10C4, 0xEA70, "Silicon Labs CP2105"),
        (0x10C4, 0xEA71, "Silicon Labs CP2108"),
        (0x10C4, 0xEA80, "Silicon Labs CP2110"),
        (0x10C4, 0xEA90, "Silicon Labs CP2615"),
        (0x10C4, 0xEA7A, "Silicon Labs EFM32"),
        (0x10C4, 0xEA7B, "Silicon Labs Gecko"),
        (0x10C4, 0x84C4, "Silicon Labs USB-UART"),
        (0x0403, 0x6001, "FTDI FT232R"),
        (0x0403, 0x6010, "FTDI FT2232C"),
        (0x0403, 0x6011, "FTDI FT4232"),
        (0x0403, 0x6014, "FTDI FT232H"),
        (0x0403, 0x6015, "FTDI FT230X"),
        (0x0403, 0x601C, "FTDI FT231X"),
        (0x0403, 0x6004, "FTDI FT232B"),
        (0x0403, 0x6006, "FTDI FT232BM"),
        (0x0403, 0x6016, "FTDI FT2232H"),
        (0x0403, 0x6018, "FTDI FT2233H"),
        (0x0403, 0x601F, "FTDI FT2232D"),
        (0x0403, 0xCB48, "FTDI FT232F"),
        (0x067B, 0x2303, "Prolific PL2303"),
        (0x1BCB, 0x0001, "Prolific PL2303HXA"),
        (0x0658, 0x0200, "Prolific PL2303GC"),
        (0x0658, 0x0201, "Prolific PL2303GS"),
        (0x0658, 0x0202, "Prolific PL2303GB"),
        (0x067B, 0x23A3, "Prolific PL2303TA"),
        (0x067B, 0x23B3, "Prolific PL2303TB"),
        (0x067B, 0x23C3, "Prolific PL2303TC"),
        (0x303A, 0x0001, "Espressif ESP32-C3 (USB Serial)"),
        (0x303A, 0x0002, "Espressif ESP32-S2 (USB Serial)"),
        (0x303A, 0x0003, "Espressif ESP32-S3 (USB Serial)"),
        (0x303A, 0x0004, "Espressif ESP32-C6 (USB Serial)"),
        (0x303A, 0x0005, "Espressif ESP32-H2 (USB Serial)"),
        (0x303A, 0x0006, "Espressif ESP32-C2 (USB Serial)"),
        (0x303A, 0x0009, "Espressif ESP32-P4 (USB Serial)"),
        (0x303A, 0x1001, "Espressif ESP32-C3 (USB Serial/JTAG)"),
        (0x303A, 0x1002, "Espressif ESP32-S2 (USB Serial/JTAG)"),
        (0x303A, 0x1003, "Espressif ESP32-S3 (USB Serial/JTAG)"),
        (0x303A, 0x1004, "Espressif ESP32-C6 (USB Serial/JTAG)"),
        (0x303A, 0x1005, "Espressif ESP32-H2 (USB Serial/JTAG)"),
        (0x303A, 0x1006, "Espressif ESP32-C2 (USB Serial/JTAG)"),
        (0x303A, 0x1009, "Espressif ESP32-P4 (USB Serial/JTAG)"),
        (0x0483, 0x5740, "ST STM32 VCP (Virtual COM Port)"),
        (0x0483, 0x5741, "ST STM32 USB CDC"),
        (0x0483, 0x374B, "ST ST-LINK/V2"),
        (0x0483, 0x374E, "ST ST-LINK/V3"),
        (0x0483, 0x3748, "ST ST-LINK/V2"),
        (0x0483, 0x3747, "ST ST-LINK"),
        (0x0483, 0x374A, "ST Nucleo Virtual COM"),
        (0x0483, 0x572B, "ST Motor Control VCP"),
        (0x0483, 0x5750, "ST STM32 Discovery"),
        (0x03EB, 0x2104, "Microchip MCP2200"),
        (0x03EB, 0x2120, "Microchip MCP2221"),
        (0x03EB, 0x2404, "Microchip SAMD USB CDC"),
        (0x03EB, 0x6124, "Microchip AVR (CDC)"),
        (0x03EB, 0x6127, "Microchip AVR (Caterina/Leonardo)"),
        (0x03EB, 0x2044, "Microchip AVR (Mega)"),
        (0x03EB, 0x2144, "Microchip AVR (Uno R3)"),
        (0x16C0, 0x0483, "Teensy (AVR)"),
        (0x16C0, 0x0484, "Teensy (USB Serial)"),
        (0x16C0, 0x04D0, "Arduino/Genuino Uno"),
        (0x2341, 0x0043, "Arduino Uno R3 (ATmega328P)"),
        (0x2341, 0x0001, "Arduino Uno"),
        (0x2341, 0x0243, "Arduino Mega 2560"),
        (0x2341, 0x0042, "Arduino Mega 2560 R3"),
        (0x2341, 0x0041, "Arduino Mega ADK"),
        (0x2341, 0x0036, "Arduino Leonardo"),
        (0x2341, 0x8036, "Arduino Leonardo (old)"),
        (0x2341, 0x0039, "Arduino Micro"),
        (0x2341, 0x8037, "Arduino Micro (old)"),
        (0x2341, 0x003B, "Arduino Nano Every"),
        (0x2341, 0x0058, "Arduino Nano BLE"),
        (0x1A86, 0x55D2, "Arduino (WCH)"),
        (0x2A03, 0x0043, "Arduino Uno (AVR ISP)"),
        (0x15A2, 0x0042, "NXP Freescale (CDC)"),
        (0x15A2, 0x0073, "NXP FRDM-KL25Z"),
        (0x15A2, 0x0076, "NXP FRDM-K64F"),
        (0x15A2, 0x0033, "NXP LPC (CDC)"),
        (0x0D28, 0x0204, "NXP mbed"),
        (0x1D50, 0x60C4, "TI MSP430 (MSP-EXP432)"),
        (0x0451, 0xF432, "TI MSP432 LaunchPad"),
        (0x0451, 0xC32A, "TI Tiva/Stellaris"),
        (0x0451, 0x16C2, "TI CC3200"),
        (0x2E8A, 0x000A, "Raspberry Pi Pico (RP2040 CDC)"),
        (0x2E8A, 0x0005, "Raspberry Pi Pico (RP2040)"),
        (0x2E8A, 0x0007, "Raspberry Pi Pico W (RP2040)"),
        (0x2E8A, 0x000D, "Raspberry Pi Pico (Picoprobe)"),
        (0x2E8A, 0x0003, "Raspberry Pi Pico (BOOTSEL)"),
        (0x04F3, 0x4000, "ELAN"),
        (0x413C, 0x2106, "Dell"),
        (0x0461, 0x4A2A, "HP"),
        (0x0FE4, 0x0178, "Jolla"),
        (0x0403, 0x600A, "FTDI FT232L"),
    ]
}

} // verus!

verus! {

/// The USB serial bridge chips the device list identifies, by VID, PID and
/// the name shown for them.
pub open spec fn known_chips() -> Seq<(u16, u16, Seq<char>)> {
    seq![
        (0x1A86u16, 0x7523u16, "WCH CH340"@),
        (0x1A86u16, 0x7522u16, "WCH CH340G"@),
        (0x1A86u16, 0x7525u16, "WCH CH341"@),
        (0x1A86u16, 0x55D3u16, "WCH CH342"@),
        (0x1A86u16, 0x55D4u16, "WCH CH9102"@),
        (0x1A86u16, 0x55D5u16, "WCH CH9103"@),
        (0x1A86u16, 0x55E0u16, "WCH CH9101"@),
        (0x1A86u16, 0x55D6u16, "WCH CH9143"@),
        (0x1A86u16, 0x7524u16, "WCH CH9344"@),
        (0x1A86u16, 0x5512u16, "WCH CH9340"@),
        (0x1A86u16, 0x55D7u16, "WCH CH9434"@),
        (0x1A86u16, 0x5524u16, "WCH CH9326"@),
        (0x0D6Fu16, 0x0005u16, "WCH CH9101"@),
        (0x10C4u16, 0xEA60u16, "Silicon Labs CP2102/CP210x"@),
        (0x10C4u16, 0xEA70u16, "Silicon Labs CP2105"@),
        (0x10C4u16, 0xEA71u16, "Silicon Labs CP2108"@),
        (0x10C4u16, 0xEA80u16, "Silicon Labs CP2110"@),
        (0x10C4u16, 0xEA90u16, "Silicon Labs CP2615"@),
        (0x10C4u16, 0xEA7Au16, "Silicon Labs EFM32"@),
        (0x10C4u16, 0xEA7Bu16, "Silicon Labs Gecko"@),
        (0x10C4u16, 0x84C4u16, "Silicon Labs USB-UART"@),
        (0x0403u16, 0x6001u16, "FTDI FT232R"@),
        (0x0403u16, 0x6010u16, "FTDI FT2232C"@),
        (0x0403u16, 0x6011u16, "FTDI FT4232"@),
        (0x0403u16, 0x6014u16, "FTDI FT232H"@),
        (0x0403u16, 0x6015u16, "FTDI FT230X"@),
        (0x0403u16, 0x601Cu16, "FTDI FT231X"@),
        (0x0403u16, 0x6004u16, "FTDI FT232B"@),
        (0x0403u16, 0x6006u16, "FTDI FT232BM"@),
        (0x0403u16, 0x6016u16, "FTDI FT2232H"@),
        (0x0403u16, 0x6018u16, "FTDI FT2233H"@),
        (0x0403u16, 0x601Fu16, "FTDI FT2232D"@),
        (0x0403u16, 0xCB48u16, "FTDI FT232F"@),
        (0x067Bu16, 0x2303u16, "Prolific PL2303"@),
        (0x1BCBu16, 0x0001u16, "Prolific PL2303HXA"@),
        (0x0658u16, 0x0200u16, "Prolific PL2303GC"@),
        (0x0658u16, 0x0201u16, "Prolific PL2303GS"@),
        (0x0658u16, 0x0202u16, "Prolific PL2303GB"@),
        (0x067Bu16, 0x23A3u16, "Prolific PL2303TA"@),
        (0x067Bu16, 0x23B3u16, "Prolific PL2303TB"@),
        (0x067Bu16, 0x23C3u16, "Prolific PL2303TC"@),
        (0x303Au16, 0x0001u16, "Espressif ESP32-C3 (USB Serial)"@),
        (0x303Au16, 0x0002u16, "Espressif ESP32-S2 (USB Serial)"@),
        (0x303Au16, 0x0003u16, "Espressif ESP32-S3 (USB Serial)"@),
        (0x303Au16, 0x0004u16, "Espressif ESP32-C6 (USB Serial)"@),
        (0x303Au16, 0x0005u16, "Espressif ESP32-H2 (USB Serial)"@),
        (0x303Au16, 0x0006u16, "Espressif ESP32-C2 (USB Serial)"@),
        (0x303Au16, 0x0009u16, "Espressif ESP32-P4 (USB Serial)"@),
        (0x303Au16, 0x1001u16, "Espressif ESP32-C3 (USB Serial/JTAG)"@),
        (0x303Au16, 0x1002u16, "Espressif ESP32-S2 (USB Serial/JTAG)"@),
        (0x303Au16, 0x1003u16, "Espressif ESP32-S3 (USB Serial/JTAG)"@),
        (0x303Au16, 0x1004u16, "Espressif ESP32-C6 (USB Serial/JTAG)"@),
        (0x303Au16, 0x1005u16, "Espressif ESP32-H2 (USB Serial/JTAG)"@),
        (0x303Au16, 0x1006u16, "Espressif ESP32-C2 (USB Serial/JTAG)"@),
        (0x303Au16, 0x1009u16, "Espressif ESP32-P4 (USB Serial/JTAG)"@),
        (0x0483u16, 0x5740u16, "ST STM32 VCP (Virtual COM Port)"@),
        (0x0483u16, 0x5741u16, "ST STM32 USB CDC"@),
        (0x0483u16, 0x374Bu16, "ST ST-LINK/V2"@),
        (0x0483u16, 0x374Eu16, "ST ST-LINK/V3"@),
        (0x0483u16, 0x3748u16, "ST ST-LINK/V2"@),
        (0x0483u16, 0x3747u16, "ST ST-LINK"@),
        (0x0483u16, 0x374Au16, "ST Nucleo Virtual COM"@),
        (0x0483u16, 0x572Bu16, "ST Motor Control VCP"@),
        (0x0483u16, 0x5750u16, "ST STM32 Discovery"@),
        (0x03EBu16, 0x2104u16, "Microchip MCP2200"@),
        (0x03EBu16, 0x2120u16, "Microchip MCP2221"@),
        (0x03EBu16, 0x2404u16, "Microchip SAMD USB CDC"@),
        (0x03EBu16, 0x6124u16, "Microchip AVR (CDC)"@),
        (0x03EBu16, 0x6127u16, "Microchip AVR (Caterina/Leonardo)"@),
        (0x03EBu16, 0x2044u16, "Microchip AVR (Mega)"@),
        (0x03EBu16, 0x2144u16, "Microchip AVR (Uno R3)"@),
        (0x16C0u16, 0x0483u16, "Teensy (AVR)"@),
        (0x16C0u16, 0x0484u16, "Teensy (USB Serial)"@),
        (0x16C0u16, 0x04D0u16, "Arduino/Genuino Uno"@),
        (0x2341u16, 0x0043u16, "Arduino Uno R3 (ATmega328P)"@),
        (0x2341u16, 0x0001u16, "Arduino Uno"@),
        (0x2341u16, 0x0243u16, "Arduino Mega 2560"@),
        (0x2341u16, 0x0042u16, "Arduino Mega 2560 R3"@),
        (0x2341u16, 0x0041u16, "Arduino Mega ADK"@),
        (0x2341u16, 0x0036u16, "Arduino Leonardo"@),
        (0x2341u16, 0x8036u16, "Arduino Leonardo (old)"@),
        (0x2341u16, 0x0039u16, "Arduino Micro"@),
        (0x2341u16, 0x8037u16, "Arduino Micro (old)"@),
        (0x2341u16, 0x003Bu16, "Arduino Nano Every"@),
        (0x2341u16, 0x0058u16, "Arduino Nano BLE"@),
        (0x1A86u16, 0x55D2u16, "Arduino (WCH)"@),
        (0x2A03u16, 0x0043u16, "Arduino Uno (AVR ISP)"@),
        (0x15A2u16, 0x0042u16, "NXP Freescale (CDC)"@),
        (0x15A2u16, 0x0073u16, "NXP FRDM-KL25Z"@),
        (0x15A2u16, 0x0076u16, "NXP FRDM-K64F"@),
        (0x15A2u16, 0x0033u16, "NXP LPC (CDC)"@),
        (0x0D28u16, 0x0204u16, "NXP mbed"@),
        (0x1D50u16, 0x60C4u16, "TI MSP430 (MSP-EXP432)"@),
        (0x0451u16, 0xF432u16, "TI MSP432 LaunchPad"@),
        (0x0451u16, 0xC32Au16, "TI Tiva/Stellaris"@),
        (0x0451u16, 0x16C2u16, "TI CC3200"@),
        (0x2E8Au16, 0x000Au16, "Raspberry Pi Pico (RP2040 CDC)"@),
        (0x2E8Au16, 0x0005u16, "Raspberry Pi Pico (RP2040)"@),
        (0x2E8Au16, 0x0007u16, "Raspberry Pi Pico W (RP2040)"@),
        (0x2E8Au16, 0x000Du16, "Raspberry Pi Pico (Picoprobe)"@),
        (0x2E8Au16, 0x0003u16, "Raspberry Pi Pico (BOOTSEL)"@),
        (0x04F3u16, 0x4000u16, "ELAN"@),
        (0x413Cu16, 0x2106u16, "Dell"@),
        (0x0461u16, 0x4A2Au16, "HP"@),
        (0x0FE4u16, 0x0178u16, "Jolla"@),
        (0x0403u16, 0x600Au16, "FTDI FT232L"@),
    ]
}

/// The lookup table is the list of known chips, entry for entry: the same
/// VID, PID and name at every position, so each known chip is identified by
/// its VID and PID (the first entry with them, see `chip_lookup`).
pub proof fn law_chip_table_is_known_chips()
    ensures
        chip_table().len() == known_chips().len(),
        forall|i: int| 0 <= i < chip_table().len() ==> (#[trigger] chip_table()[i]).0 == known_chips()[i].0
            && chip_table()[i].1 == known_chips()[i].1 && chip_table()[i].2@ == known_chips()[i].2,
{
    assert(chip_table().map_values(|e: (u16, u16, &'static str)| (e.0, e.1, e.2@)) =~= known_chips());
}

/// The first entry of `t` with this VID and PID is found.
proof fn lemma_lookup_first(t: Seq<(u16, u16, &'static str)>, i: int)
    requires
        0 <= i < t.len(),
        forall|j: int| #![trigger t[j]] 0 <= j < i ==> !(t[j].0 == t[i].0 && t[j].1 == t[i].1),
    ensures
        chip_lookup(t, t[i].0, t[i].1) == Some(t[i].2@),
    decreases i,
{
    if i > 0 {
        let t2 = t.drop_first();
        assert(!(t[0].0 == t[i].0 && t[0].1 == t[i].1));
        assert forall|j: int| #![trigger t2[j]] 0 <= j < i - 1 implies !(t2[j].0 == t2[i - 1].0 && t2[j].1 == t2[i - 1].1) by {
            assert(t2[j] == t[j + 1]);
            assert(t2[i - 1] == t[i]);
        }
        lemma_lookup_first(t2, i - 1);
        assert(t2[i - 1] == t[i]);
    }
}

/// No two known chips share a VID and PID.
proof fn lemma_known_keys_distinct()
    ensures
        forall|i: int, j: int| #![trigger known_chips()[j], known_chips()[i]] 0 <= j < i < known_chips().len()
            ==> !(known_chips()[j].0 == known_chips()[i].0 && known_chips()[j].1 == known_chips()[i].1),
{
}

/// Each known chip is identified by its VID and PID: looking them up gives
/// exactly its name, which `chip_for_vid_pid` returns.
pub proof fn law_known_chips_identified(vid: u16, pid: u16, name: Seq<char>)
    requires
        known_chips().contains((vid, pid, name)),
    ensures
        chip_lookup(chip_table(), vid, pid) == Some(name),
{
    law_chip_table_is_known_chips();
    lemma_known_keys_distinct();
    let t = chip_table();
    let k = known_chips();
    let i = choose|i: int| 0 <= i < k.len() && k[i] == (vid, pid, name);
    assert forall|j: int| #![trigger t[j]] 0 <= j < i implies !(t[j].0 == t[i].0 && t[j].1 == t[i].1) by {
        assert(t[j].0 == k[j].0 && t[j].1 == k[j].1);
        assert(t[i].0 == k[i].0 && t[i].1 == k[i].1);
    }
    lemma_lookup_first(t, i);
}

} // verus!
