use display_cli::config::Config;
use display_cli::config::Profile;
use display_cli::vcp::InputSource;
use display_cli::vcp::VcpFeature;
use display_cli::vcp::parse_feature;

#[test]
fn feature_code_round_trip() {
    let named = [
        VcpFeature::InputSource,
        VcpFeature::Brightness,
        VcpFeature::Contrast,
        VcpFeature::Volume,
        VcpFeature::PowerMode,
    ];
    for f in named {
        assert_eq!(VcpFeature::from_code(f.code()), f);
    }
}

#[test]
fn feature_codes_are_canonical() {
    assert_eq!(VcpFeature::InputSource.code(), 0x60);
    assert_eq!(VcpFeature::Brightness.code(), 0x10);
    assert_eq!(VcpFeature::Contrast.code(), 0x12);
    assert_eq!(VcpFeature::Volume.code(), 0x62);
    assert_eq!(VcpFeature::PowerMode.code(), 0xD6);
}

#[test]
fn unknown_code_is_custom() {
    assert_eq!(VcpFeature::from_code(0x99), VcpFeature::Custom(0x99));
    assert_eq!(VcpFeature::Custom(0x99).code(), 0x99);
}

#[test]
fn feature_names() {
    assert_eq!(VcpFeature::InputSource.name(), "Input Source");
    assert_eq!(VcpFeature::Brightness.name(), "Brightness");
    assert_eq!(VcpFeature::Contrast.name(), "Contrast");
    assert_eq!(VcpFeature::Volume.name(), "Volume");
    assert_eq!(VcpFeature::PowerMode.name(), "Power Mode");
    assert_eq!(VcpFeature::Custom(0x42).name(), "Custom");
}

#[test]
fn input_source_round_trip() {
    let named = [
        InputSource::Analog1,
        InputSource::Analog2,
        InputSource::Digital1,
        InputSource::Digital2,
        InputSource::Composite1,
        InputSource::Composite2,
        InputSource::SVideo1,
        InputSource::SVideo2,
        InputSource::Tuner1,
        InputSource::Tuner2,
        InputSource::Tuner3,
        InputSource::Component1,
        InputSource::Component2,
        InputSource::Component3,
        InputSource::DisplayPort1,
        InputSource::DisplayPort2,
        InputSource::Hdmi1,
        InputSource::Hdmi2,
        InputSource::UsbC,
    ];
    for s in named {
        assert_eq!(InputSource::from_value(s.value()), s);
    }
}

#[test]
fn usb_c_placeholder_value_round_trips() {
    // The fixed UsbC value is a placeholder monitors often disagree with,
    // but it classifies back to UsbC like every other named source.
    assert_eq!(InputSource::UsbC.value(), 0x13);
    assert_eq!(InputSource::from_value(0x13), InputSource::UsbC);
}

#[test]
fn unknown_value_is_unrecognized() {
    assert_eq!(InputSource::from_value(0x0), InputSource::Unrecognized(0x0));
    assert_eq!(InputSource::from_value(0x14), InputSource::Unrecognized(0x14));
    assert_eq!(InputSource::from_value(0x2F), InputSource::Unrecognized(0x2F));
    assert_eq!(InputSource::Unrecognized(0x2F).value(), 0x2F);
}

#[test]
fn parse_feature_names() {
    assert_eq!(parse_feature("brightness"), Some(0x10));
    assert_eq!(parse_feature("contrast"), Some(0x12));
    assert_eq!(parse_feature("volume"), Some(0x62));
    assert_eq!(parse_feature("input"), Some(0x60));
    assert_eq!(parse_feature("power"), Some(0xD6));
}

#[test]
fn parse_feature_ignores_case() {
    assert_eq!(parse_feature("BRIGHTNESS"), Some(0x10));
    assert_eq!(parse_feature("Input"), Some(0x60));
}

#[test]
fn parse_feature_hex() {
    assert_eq!(parse_feature("0x10"), Some(0x10));
    assert_eq!(parse_feature("0X2f"), Some(0x2F));
    assert_eq!(parse_feature("0x"), None);
    assert_eq!(parse_feature("0x100"), None);
}

#[test]
fn parse_feature_decimal() {
    assert_eq!(parse_feature("16"), Some(16));
    assert_eq!(parse_feature("255"), Some(255));
    assert_eq!(parse_feature("256"), None);
    assert_eq!(parse_feature("unknown"), None);
}

#[test]
fn profile_round_trip() {
    let mut config = Config::default();
    let profile = Profile { settings: vec![("DISPLAY1".to_string(), vec![(0x10, 70), (0x12, 50)])] };
    config.save_profile("evening".to_string(), profile);
    let got = config.get_profile("evening").expect("profile missing");
    assert_eq!(got.settings.len(), 1);
    assert_eq!(got.settings[0].0, "DISPLAY1");
    assert_eq!(got.settings[0].1, vec![(0x10, 70), (0x12, 50)]);
    assert!(config.get_profile("morning").is_none());
}

#[test]
fn profile_save_replaces_same_name() {
    let mut config = Config::default();
    config.save_profile("p".to_string(), Profile { settings: vec![] });
    config.save_profile(
        "p".to_string(),
        Profile { settings: vec![("D".to_string(), vec![(0x62, 10)])] },
    );
    assert_eq!(config.profiles.len(), 1);
    let got = config.get_profile("p").expect("profile missing");
    assert_eq!(got.settings[0].1, vec![(0x62, 10)]);
}

#[test]
fn config_well_formedness_check() {
    let mut config = Config::default();
    assert!(config.is_well_formed());
    config.save_profile("a".to_string(), Profile { settings: vec![] });
    config.save_profile("b".to_string(), Profile { settings: vec![] });
    assert!(config.is_well_formed());
    config.profiles.push(("a".to_string(), Profile { settings: vec![] }));
    assert!(!config.is_well_formed());
}
