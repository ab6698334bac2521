use display_cli::capabilities::Capabilities;
use display_cli::vcp::InputSource;
use display_cli::vcp::VcpFeature;
use std::collections::HashMap;

#[test]
fn render_orders_codes_ascending() {
    let mut features: HashMap<u8, Vec<u16>> = HashMap::new();
    features.insert(0x62, vec![]);
    features.insert(0x10, vec![]);
    features.insert(0x60, vec![0x11]);
    let caps = Capabilities {
        protocol: None,
        display_type: None,
        model: None,
        commands: vec![],
        vcp_features: features,
        mccs_version: None,
        raw: String::new(),
    };
    let out = caps.render();
    let p10 = out.find("0x10").expect("0x10 missing");
    let p60 = out.find("0x60").expect("0x60 missing");
    let p62 = out.find("0x62").expect("0x62 missing");
    assert!(p10 < p60 && p60 < p62);
}

#[test]
fn render_annotates_input_source_values_only() {
    let mut features: HashMap<u8, Vec<u16>> = HashMap::new();
    features.insert(0x60, vec![0x11]);
    features.insert(0x10, vec![0x11]);
    let caps = Capabilities {
        protocol: None,
        display_type: None,
        model: None,
        commands: vec![],
        vcp_features: features,
        mccs_version: None,
        raw: String::new(),
    };
    let out = caps.render();
    assert!(out.contains("  0x60 (Input Source) -> Supported Values: [0x11 (Hdmi1)]\n"));
    assert!(out.contains("  0x10 (Brightness) -> Supported Values: [0x11]\n"));
}

#[test]
fn render_full_report() {
    let caps = Capabilities::parse("(prot(monitor)type(lcd)model(ACME)mccs_ver(2.1)vcp(10 60(01 11)))");
    let out = caps.render();
    let expected = "Monitor Capabilities:\n\
                    \x20 Model: ACME\n\
                    \x20 Type: lcd\n\
                    \x20 Protocol: monitor\n\
                    \x20 MCCS Version: 2.1\n\
                    \nSupported VCP Features:\n\
                    \x20 0x10 (Brightness)\n\
                    \x20 0x60 (Input Source) -> Supported Values: [0x1 (Analog1), 0x11 (Hdmi1)]\n";
    assert_eq!(out, expected);
}

#[test]
fn render_omits_absent_fields() {
    let caps = Capabilities::parse("model(ACME)");
    let out = caps.render();
    assert!(out.contains("  Model: ACME\n"));
    assert!(!out.contains("Type:"));
    assert!(!out.contains("Protocol:"));
    assert!(!out.contains("MCCS Version:"));
}

#[test]
fn render_unknown_code_labelled_custom() {
    let mut features: HashMap<u8, Vec<u16>> = HashMap::new();
    features.insert(0xAB, vec![]);
    let caps = Capabilities {
        protocol: None,
        display_type: None,
        model: None,
        commands: vec![],
        vcp_features: features,
        mccs_version: None,
        raw: String::new(),
    };
    let out = caps.render();
    assert!(out.contains("  0xAB (Custom)\n"));
}

#[test]
fn render_values_uppercase_unpadded() {
    let mut features: HashMap<u8, Vec<u16>> = HashMap::new();
    features.insert(0x10, vec![0xABC, 0x0, 0xF]);
    let caps = Capabilities {
        protocol: None,
        display_type: None,
        model: None,
        commands: vec![],
        vcp_features: features,
        mccs_version: None,
        raw: String::new(),
    };
    let out = caps.render();
    assert!(out.contains("[0xABC, 0x0, 0xF]"));
}

#[test]
fn render_unrecognized_input_value() {
    let mut features: HashMap<u8, Vec<u16>> = HashMap::new();
    features.insert(0x60, vec![0x21]);
    let caps = Capabilities {
        protocol: None,
        display_type: None,
        model: None,
        commands: vec![],
        vcp_features: features,
        mccs_version: None,
        raw: String::new(),
    };
    let out = caps.render();
    assert!(out.contains("[0x21 (Unrecognized(33))]"));
}

#[test]
fn feature_describe() {
    assert_eq!(VcpFeature::Brightness.describe(), "Brightness (0x10)");
    assert_eq!(VcpFeature::PowerMode.describe(), "Power Mode (0xD6)");
    assert_eq!(VcpFeature::Custom(0x0A).describe(), "Custom (0x0A)");
}

#[test]
fn input_source_describe() {
    assert_eq!(InputSource::Hdmi1.describe(), "Hdmi1");
    assert_eq!(InputSource::UsbC.describe(), "UsbC");
    assert_eq!(InputSource::Unrecognized(0x05).describe(), "Unknown(0x05)");
    assert_eq!(InputSource::Unrecognized(0x1A3).describe(), "Unknown(0x1A3)");
}

#[test]
fn render_empty_document() {
    let caps = Capabilities::parse("");
    assert_eq!(caps.render(), "Monitor Capabilities:\n\nSupported VCP Features:\n");
}

#[test]
fn render_annotates_usb_c_value() {
    let caps = Capabilities::parse("vcp(60(13))");
    let out = caps.render();
    assert!(out.contains("[0x13 (UsbC)]"));
}
