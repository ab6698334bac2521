//! Symbol table for VCP feature codes and input-source values: total,
//! side-effect-free classification of a byte code or a 16-bit value into a
//! named variant, with an explicit fallback that keeps the raw number.

use crate::digits::dec_u8_of_token;
use crate::digits::hex_u8_of_token;
use crate::digits::parse_dec_u8;
use crate::digits::parse_hex_u8;
use crate::text::matches_keyword_ci;
use crate::text::str_eq_ci;
use vstd::prelude::*;
use vstd::string::StrSliceExecFns;

verus! {

/// Classification of a single-byte VCP code into one of the named features,
/// with `Custom` carrying any other code unchanged.
#[derive(Clone, Copy, Debug, PartialEq, Eq, Structural, Hash)]
pub enum VcpFeature {
    InputSource,
    Brightness,
    Contrast,
    Volume,
    PowerMode,
    Custom(u8),
}

/// The canonical byte code of a feature.
pub open spec fn feature_code(f: VcpFeature) -> u8 {
    match f {
        VcpFeature::InputSource => 0x60,
        VcpFeature::Brightness => 0x10,
        VcpFeature::Contrast => 0x12,
        VcpFeature::Volume => 0x62,
        VcpFeature::PowerMode => 0xD6,
        VcpFeature::Custom(c) => c,
    }
}

/// The feature a byte code classifies to; unknown codes become `Custom`.
pub open spec fn feature_of_code(code: u8) -> VcpFeature {
    if code == 0x60 {
        VcpFeature::InputSource
    } else if code == 0x10 {
        VcpFeature::Brightness
    } else if code == 0x12 {
        VcpFeature::Contrast
    } else if code == 0x62 {
        VcpFeature::Volume
    } else if code == 0xD6 {
        VcpFeature::PowerMode
    } else {
        VcpFeature::Custom(code)
    }
}

/// The human-readable name of a feature, as the renderer prints it.
pub open spec fn feature_name(f: VcpFeature) -> Seq<char> {
    match f {
        VcpFeature::InputSource => "Input Source"@,
        VcpFeature::Brightness => "Brightness"@,
        VcpFeature::Contrast => "Contrast"@,
        VcpFeature::Volume => "Volume"@,
        VcpFeature::PowerMode => "Power Mode"@,
        VcpFeature::Custom(_) => "Custom"@,
    }
}

impl VcpFeature {
    /// The canonical byte code of this feature.
    pub fn code(&self) -> (c: u8)
        ensures
            c == feature_code(*self),
    {
        match self {
            VcpFeature::InputSource => 0x60,
            VcpFeature::Brightness => 0x10,
            VcpFeature::Contrast => 0x12,
            VcpFeature::Volume => 0x62,
            VcpFeature::PowerMode => 0xD6,
            VcpFeature::Custom(c) => *c,
        }
    }

    /// Classify a byte code; every code classifies to something.
    pub fn from_code(code: u8) -> (f: VcpFeature)
        ensures
            f == feature_of_code(code),
    {
        match code {
            0x60 => VcpFeature::InputSource,
            0x10 => VcpFeature::Brightness,
            0x12 => VcpFeature::Contrast,
            0x62 => VcpFeature::Volume,
            0xD6 => VcpFeature::PowerMode,
            c => VcpFeature::Custom(c),
        }
    }

    /// The human-readable name of this feature.
    pub fn name(&self) -> (s: &'static str)
        ensures
            s@ == feature_name(*self),
    {
        match self {
            VcpFeature::InputSource => "Input Source",
            VcpFeature::Brightness => "Brightness",
            VcpFeature::Contrast => "Contrast",
            VcpFeature::Volume => "Volume",
            VcpFeature::PowerMode => "Power Mode",
            VcpFeature::Custom(_) => "Custom",
        }
    }
}

/// Law: classifying the canonical code of a named feature yields that
/// feature again.
pub proof fn lemma_feature_round_trip(f: VcpFeature)
    requires
        !(f is Custom),
    ensures
        feature_of_code(feature_code(f)) == f,
{
}

/// Law: a code outside the known set classifies to `Custom` carrying that
/// exact code.
pub proof fn lemma_unknown_code_is_custom(code: u8)
    requires
        code != 0x60,
        code != 0x10,
        code != 0x12,
        code != 0x62,
        code != 0xD6,
    ensures
        feature_of_code(code) == VcpFeature::Custom(code),
{
}

/// Classification of a 16-bit value of the Input Source feature into one of
/// the named physical inputs, with `Unrecognized` carrying any other value.
#[derive(Clone, Copy, Debug, PartialEq, Eq, Structural)]
pub enum InputSource {
    Analog1,
    Analog2,
    Digital1,
    Digital2,
    Composite1,
    Composite2,
    SVideo1,
    SVideo2,
    Tuner1,
    Tuner2,
    Tuner3,
    Component1,
    Component2,
    Component3,
    DisplayPort1,
    DisplayPort2,
    Hdmi1,
    Hdmi2,
    UsbC,
    Unrecognized(u16),
}

/// The input source a 16-bit value classifies to; unmatched values become
/// `Unrecognized`.
pub open spec fn input_source_of_value(value: u16) -> InputSource {
    if value == 0x01 {
        InputSource::Analog1
    } else if value == 0x02 {
        InputSource::Analog2
    } else if value == 0x03 {
        InputSource::Digital1
    } else if value == 0x04 {
        InputSource::Digital2
    } else if value == 0x05 {
        InputSource::Composite1
    } else if value == 0x06 {
        InputSource::Composite2
    } else if value == 0x07 {
        InputSource::SVideo1
    } else if value == 0x08 {
        InputSource::SVideo2
    } else if value == 0x09 {
        InputSource::Tuner1
    } else if value == 0x0A {
        InputSource::Tuner2
    } else if value == 0x0B {
        InputSource::Tuner3
    } else if value == 0x0C {
        InputSource::Component1
    } else if value == 0x0D {
        InputSource::Component2
    } else if value == 0x0E {
        InputSource::Component3
    } else if value == 0x0F {
        InputSource::DisplayPort1
    } else if value == 0x10 {
        InputSource::DisplayPort2
    } else if value == 0x11 {
        InputSource::Hdmi1
    } else if value == 0x12 {
        InputSource::Hdmi2
    } else if value == 0x13 {
        InputSource::UsbC
    } else {
        InputSource::Unrecognized(value)
    }
}

/// The canonical 16-bit value of an input source. The `UsbC` value is a
/// fixed placeholder that monitors often disagree with; it still round
/// trips through classification like every other named source.
pub open spec fn input_source_value(s: InputSource) -> u16 {
    match s {
        InputSource::Analog1 => 0x01,
        InputSource::Analog2 => 0x02,
        InputSource::Digital1 => 0x03,
        InputSource::Digital2 => 0x04,
        InputSource::Composite1 => 0x05,
        InputSource::Composite2 => 0x06,
        InputSource::SVideo1 => 0x07,
        InputSource::SVideo2 => 0x08,
        InputSource::Tuner1 => 0x09,
        InputSource::Tuner2 => 0x0A,
        InputSource::Tuner3 => 0x0B,
        InputSource::Component1 => 0x0C,
        InputSource::Component2 => 0x0D,
        InputSource::Component3 => 0x0E,
        InputSource::DisplayPort1 => 0x0F,
        InputSource::DisplayPort2 => 0x10,
        InputSource::Hdmi1 => 0x11,
        InputSource::Hdmi2 => 0x12,
        InputSource::UsbC => 0x13,
        InputSource::Unrecognized(v) => v,
    }
}

impl InputSource {
    /// Classify a 16-bit value; every value classifies to something.
    pub fn from_value(value: u16) -> (s: InputSource)
        ensures
            s == input_source_of_value(value),
    {
        match value {
            0x01 => InputSource::Analog1,
            0x02 => InputSource::Analog2,
            0x03 => InputSource::Digital1,
            0x04 => InputSource::Digital2,
            0x05 => InputSource::Composite1,
            0x06 => InputSource::Composite2,
            0x07 => InputSource::SVideo1,
            0x08 => InputSource::SVideo2,
            0x09 => InputSource::Tuner1,
            0x0A => InputSource::Tuner2,
            0x0B => InputSource::Tuner3,
            0x0C => InputSource::Component1,
            0x0D => InputSource::Component2,
            0x0E => InputSource::Component3,
            0x0F => InputSource::DisplayPort1,
            0x10 => InputSource::DisplayPort2,
            0x11 => InputSource::Hdmi1,
            0x12 => InputSource::Hdmi2,
            0x13 => InputSource::UsbC,
            v => InputSource::Unrecognized(v),
        }
    }

    /// The canonical 16-bit value of this input source.
    pub fn value(&self) -> (v: u16)
        ensures
            v == input_source_value(*self),
    {
        match self {
            InputSource::Analog1 => 0x01,
            InputSource::Analog2 => 0x02,
            InputSource::Digital1 => 0x03,
            InputSource::Digital2 => 0x04,
            InputSource::Composite1 => 0x05,
            InputSource::Composite2 => 0x06,
            InputSource::SVideo1 => 0x07,
            InputSource::SVideo2 => 0x08,
            InputSource::Tuner1 => 0x09,
            InputSource::Tuner2 => 0x0A,
            InputSource::Tuner3 => 0x0B,
            InputSource::Component1 => 0x0C,
            InputSource::Component2 => 0x0D,
            InputSource::Component3 => 0x0E,
            InputSource::DisplayPort1 => 0x0F,
            InputSource::DisplayPort2 => 0x10,
            InputSource::Hdmi1 => 0x11,
            InputSource::Hdmi2 => 0x12,
            InputSource::UsbC => 0x13,
            InputSource::Unrecognized(v) => *v,
        }
    }
}

/// The byte code a feature argument names, ASCII case ignored: a symbolic
/// feature name, a hexadecimal code with an `0x` prefix, or a decimal
/// code; anything else is rejected.
pub open spec fn feature_arg_code(s: Seq<char>) -> Option<u8> {
    if matches_keyword_ci(s, "brightness"@) {
        Some(0x10)
    } else if matches_keyword_ci(s, "contrast"@) {
        Some(0x12)
    } else if matches_keyword_ci(s, "volume"@) {
        Some(0x62)
    } else if matches_keyword_ci(s, "input"@) {
        Some(0x60)
    } else if matches_keyword_ci(s, "power"@) {
        Some(0xD6)
    } else if s.len() >= 2 && s[0] == '0' && (s[1] == 'x' || s[1] == 'X') {
        parse_hex_u8(s.subrange(2, s.len() as int))
    } else {
        parse_dec_u8(s)
    }
}

/// Resolve a feature argument to its byte code, or nothing when it names
/// no feature and reads as no number in range.
pub fn parse_feature(feature: &str) -> (r: Option<u8>)
    ensures
        r == feature_arg_code(feature@),
{
    if str_eq_ci(feature, "brightness") {
        return Some(0x10);
    }
    if str_eq_ci(feature, "contrast") {
        return Some(0x12);
    }
    if str_eq_ci(feature, "volume") {
        return Some(0x62);
    }
    if str_eq_ci(feature, "input") {
        return Some(0x60);
    }
    if str_eq_ci(feature, "power") {
        return Some(0xD6);
    }
    let n = feature.unicode_len();
    if n >= 2 && feature.get_char(0) == '0' && (feature.get_char(1) == 'x' || feature.get_char(1)
        == 'X') {
        hex_u8_of_token(feature.substring_char(2, n))
    } else {
        dec_u8_of_token(feature)
    }
}

/// Law: classifying the canonical value of a named input source yields
/// that source again, `UsbC` included.
pub proof fn lemma_input_source_round_trip(s: InputSource)
    requires
        !(s is Unrecognized),
    ensures
        input_source_of_value(input_source_value(s)) == s,
{
}

/// Law: a value outside the known set classifies to `Unrecognized` carrying
/// that exact value.
pub proof fn lemma_unknown_value_is_unrecognized(value: u16)
    requires
        !(0x01 <= value <= 0x13),
    ensures
        input_source_of_value(value) == InputSource::Unrecognized(value),
{
}

} // verus!
