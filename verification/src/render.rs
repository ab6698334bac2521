//! Rendering a parsed capabilities document as a human-readable report.
//!
//! The report is a pure function of the document: a header, one line per
//! populated identity field, and one line per declared VCP feature, sorted
//! ascending by code, with symbolic names from the symbol table and, for
//! the Input Source feature only, a name beside each listed value.

use crate::capabilities::Capabilities;
use crate::capabilities::DocSpec;
use crate::capabilities::seq_of_vec;
use crate::capabilities::vcp_table_view;
use crate::digits::append_dec_u16;
use crate::digits::append_hex_byte;
use crate::digits::append_hex_u16;
use crate::digits::append_hex_u16_pad2;
use crate::digits::dec_u16_seq;
use crate::digits::hex_byte_seq;
use crate::digits::hex_u16_pad2_seq;
use crate::digits::hex_u16_seq;
use crate::vcp::InputSource;
use crate::vcp::VcpFeature;
use crate::vcp::feature_code;
use crate::vcp::feature_name;
use crate::vcp::feature_of_code;
use crate::vcp::input_source_of_value;
use vstd::prelude::*;
use vstd::string::StringExecFns;

verus! {

broadcast use vstd::std_specs::hash::group_hash_axioms;

/// The name an input source is listed under: the variant's own name, with
/// the raw value in decimal for an unrecognized one.
pub open spec fn input_label(s: InputSource) -> Seq<char> {
    match s {
        InputSource::Analog1 => "Analog1"@,
        InputSource::Analog2 => "Analog2"@,
        InputSource::Digital1 => "Digital1"@,
        InputSource::Digital2 => "Digital2"@,
        InputSource::Composite1 => "Composite1"@,
        InputSource::Composite2 => "Composite2"@,
        InputSource::SVideo1 => "SVideo1"@,
        InputSource::SVideo2 => "SVideo2"@,
        InputSource::Tuner1 => "Tuner1"@,
        InputSource::Tuner2 => "Tuner2"@,
        InputSource::Tuner3 => "Tuner3"@,
        InputSource::Component1 => "Component1"@,
        InputSource::Component2 => "Component2"@,
        InputSource::Component3 => "Component3"@,
        InputSource::DisplayPort1 => "DisplayPort1"@,
        InputSource::DisplayPort2 => "DisplayPort2"@,
        InputSource::Hdmi1 => "Hdmi1"@,
        InputSource::Hdmi2 => "Hdmi2"@,
        InputSource::UsbC => "UsbC"@,
        InputSource::Unrecognized(v) => "Unrecognized("@ + dec_u16_seq(v) + ")"@,
    }
}

/// One identity line of the report, or nothing when the field is absent.
pub open spec fn opt_line(label: Seq<char>, v: Option<Seq<char>>) -> Seq<char> {
    match v {
        Some(s) => label + s + "\n"@,
        None => Seq::empty(),
    }
}

/// The bracketed value list of one feature line, from item `k` on: each
/// value in uppercase hexadecimal, comma separated, and annotated with its
/// input-source name when the feature is Input Source (code 0x60).
pub open spec fn value_items(code: u8, vals: Seq<u16>, k: int) -> Seq<char>
    decreases vals.len() - k,
    when 0 <= k <= vals.len()
{
    if k >= vals.len() {
        Seq::empty()
    } else {
        (if k > 0 {
            ", "@
        } else {
            Seq::empty()
        }) + "0x"@ + hex_u16_seq(vals[k]) + (if code == 0x60 {
            " ("@ + input_label(input_source_of_value(vals[k])) + ")"@
        } else {
            Seq::empty()
        }) + value_items(code, vals, k + 1)
    }
}

/// One feature line: the code in two uppercase hexadecimal digits, its
/// symbolic name, and, only when values are declared, the bracketed list.
pub open spec fn feature_line(code: u8, vals: Seq<u16>) -> Seq<char> {
    "  0x"@ + hex_byte_seq(code) + " ("@ + feature_name(feature_of_code(code)) + ")"@ + (
    if vals.len() == 0 {
        Seq::<char>::empty()
    } else {
        " -> Supported Values: ["@ + value_items(code, vals, 0) + "]"@
    }) + "\n"@
}

/// The feature lines for every declared code at or above `c`, ascending.
pub open spec fn feature_lines(m: Map<u8, Seq<u16>>, c: int) -> Seq<char>
    decreases 256 - c,
    when 0 <= c <= 256
{
    if c >= 256 {
        Seq::empty()
    } else {
        (if m.dom().contains(c as u8) {
            feature_line(c as u8, m[c as u8])
        } else {
            Seq::<char>::empty()
        }) + feature_lines(m, c + 1)
    }
}

/// The whole report of a document.
pub open spec fn render_spec(d: DocSpec) -> Seq<char> {
    "Monitor Capabilities:\n"@ + opt_line("  Model: "@, d.model) + opt_line(
        "  Type: "@,
        d.display_type,
    ) + opt_line("  Protocol: "@, d.protocol) + opt_line("  MCCS Version: "@, d.mccs_version)
        + "\nSupported VCP Features:\n"@ + feature_lines(d.vcp, 0)
}

/// Append the listing name of an input source.
fn append_input_label(out: &mut String, s: InputSource)
    ensures
        final(out)@ == old(out)@ + input_label(s),
{
    match s {
        InputSource::Analog1 => out.append("Analog1"),
        InputSource::Analog2 => out.append("Analog2"),
        InputSource::Digital1 => out.append("Digital1"),
        InputSource::Digital2 => out.append("Digital2"),
        InputSource::Composite1 => out.append("Composite1"),
        InputSource::Composite2 => out.append("Composite2"),
        InputSource::SVideo1 => out.append("SVideo1"),
        InputSource::SVideo2 => out.append("SVideo2"),
        InputSource::Tuner1 => out.append("Tuner1"),
        InputSource::Tuner2 => out.append("Tuner2"),
        InputSource::Tuner3 => out.append("Tuner3"),
        InputSource::Component1 => out.append("Component1"),
        InputSource::Component2 => out.append("Component2"),
        InputSource::Component3 => out.append("Component3"),
        InputSource::DisplayPort1 => out.append("DisplayPort1"),
        InputSource::DisplayPort2 => out.append("DisplayPort2"),
        InputSource::Hdmi1 => out.append("Hdmi1"),
        InputSource::Hdmi2 => out.append("Hdmi2"),
        InputSource::UsbC => out.append("UsbC"),
        InputSource::Unrecognized(x) => {
            let ghost o0 = out@;
            out.append("Unrecognized(");
            append_dec_u16(out, x);
            out.append(")");
            proof {
                assert(out@ =~= o0 + ("Unrecognized("@ + dec_u16_seq(x) + ")"@));
            }
        },
    }
}

/// Append one feature line.
fn append_feature_line(out: &mut String, code: u8, vals: &Vec<u16>)
    ensures
        final(out)@ == old(out)@ + feature_line(code, vals@),
{
    let ghost o0 = out@;
    out.append("  0x");
    append_hex_byte(out, code);
    out.append(" (");
    out.append(VcpFeature::from_code(code).name());
    out.append(")");
    if vals.len() > 0 {
        out.append(" -> Supported Values: [");
        let ghost ob = out@;
        let mut k: usize = 0;
        while k < vals.len()
            invariant
                0 <= k <= vals@.len(),
                out@ + value_items(code, vals@, k as int) == ob + value_items(code, vals@, 0),
            decreases vals@.len() - k,
        {
            let ghost oi = out@;
            if k > 0 {
                out.append(", ");
            }
            out.append("0x");
            append_hex_u16(out, vals[k]);
            if code == 0x60 {
                out.append(" (");
                append_input_label(out, InputSource::from_value(vals[k]));
                out.append(")");
            }
            proof {
                assert(out@ =~= oi + ((if k > 0 {
                    ", "@
                } else {
                    Seq::<char>::empty()
                }) + "0x"@ + hex_u16_seq(vals@[k as int]) + (if code == 0x60 {
                    " ("@ + input_label(input_source_of_value(vals@[k as int])) + ")"@
                } else {
                    Seq::<char>::empty()
                })));
                assert(out@ + value_items(code, vals@, k + 1) =~= oi + value_items(
                    code,
                    vals@,
                    k as int,
                ));
            }
            k += 1;
        }
        out.append("]");
        out.append("\n");
        proof {
            assert(value_items(code, vals@, vals@.len() as int) =~= Seq::<char>::empty());
            assert(out@ =~= o0 + feature_line(code, vals@));
        }
    } else {
        out.append("\n");
        proof {
            assert(out@ =~= o0 + feature_line(code, vals@));
        }
    }
}

impl Capabilities {
    /// Render the document as a report: a header, the populated identity
    /// fields, and every declared VCP feature sorted ascending by code.
    #[verifier::rlimit(30)]
    pub fn render(&self) -> (out: String)
        ensures
            out@ == render_spec(self@),
    {
        let ghost target = render_spec(self@);
        let mut out = String::new();
        out.append("Monitor Capabilities:\n");
        if let Some(m) = &self.model {
            out.append("  Model: ");
            out.append(m.as_str());
            out.append("\n");
        }
        if let Some(t) = &self.display_type {
            out.append("  Type: ");
            out.append(t.as_str());
            out.append("\n");
        }
        if let Some(p) = &self.protocol {
            out.append("  Protocol: ");
            out.append(p.as_str());
            out.append("\n");
        }
        if let Some(v) = &self.mccs_version {
            out.append("  MCCS Version: ");
            out.append(v.as_str());
            out.append("\n");
        }
        out.append("\nSupported VCP Features:\n");
        let ghost mv = vcp_table_view(self.vcp_features);
        proof {
            assert(out@ + feature_lines(mv, 0) =~= target);
        }
        let mut code: usize = 0;
        while code < 256
            invariant
                0 <= code <= 256,
                mv == vcp_table_view(self.vcp_features),
                out@ + feature_lines(mv, code as int) == target,
            decreases 256 - code,
        {
            let ghost oc = out@;
            let b = code as u8;
            match self.vcp_features.get(&b) {
                Some(vals) => {
                    proof {
                        assert(self.vcp_features@.contains_key(b));
                        assert(mv.dom().contains(b));
                        assert(mv[b] == seq_of_vec()(self.vcp_features@[b]));
                        assert(mv[b] == vals@);
                    }
                    append_feature_line(&mut out, b, vals);
                    proof {
                        assert(out@ + feature_lines(mv, code + 1) =~= oc + feature_lines(
                            mv,
                            code as int,
                        ));
                    }
                },
                None => {
                    proof {
                        assert(!self.vcp_features@.contains_key(b));
                        assert(!mv.dom().contains(b));
                        assert(out@ + feature_lines(mv, code + 1) =~= oc + feature_lines(
                            mv,
                            code as int,
                        ));
                    }
                },
            }
            code += 1;
        }
        proof {
            assert(feature_lines(mv, 256) =~= Seq::<char>::empty());
            assert(out@ =~= target);
        }
        out
    }
}

impl VcpFeature {
    /// The feature's name and canonical code, as one readable string.
    pub fn describe(&self) -> (out: String)
        ensures
            out@ == feature_name(*self) + " (0x"@ + hex_byte_seq(feature_code(*self)) + ")"@,
    {
        let mut out = String::new();
        out.append(self.name());
        out.append(" (0x");
        append_hex_byte(&mut out, self.code());
        out.append(")");
        proof {
            assert(out@ =~= feature_name(*self) + " (0x"@ + hex_byte_seq(feature_code(*self))
                + ")"@);
        }
        out
    }
}

/// The readable form of an input source: its listing name, or
/// `Unknown(0x..)` with the raw value for an unrecognized one.
pub open spec fn input_describe(s: InputSource) -> Seq<char> {
    match s {
        InputSource::Unrecognized(v) => "Unknown(0x"@ + hex_u16_pad2_seq(v) + ")"@,
        _ => input_label(s),
    }
}

impl InputSource {
    /// The input source as a readable string.
    pub fn describe(&self) -> (out: String)
        ensures
            out@ == input_describe(*self),
    {
        match self {
            InputSource::Unrecognized(v) => {
                let mut out = String::new();
                out.append("Unknown(0x");
                append_hex_u16_pad2(&mut out, *v);
                out.append(")");
                proof {
                    assert(out@ =~= "Unknown(0x"@ + hex_u16_pad2_seq(*v) + ")"@);
                }
                out
            },
            _ => {
                let mut out = String::new();
                append_input_label(&mut out, *self);
                proof {
                    assert(out@ =~= input_label(*self));
                }
                out
            },
        }
    }
}

} // verus!
