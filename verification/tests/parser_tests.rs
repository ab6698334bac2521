use display_cli::capabilities::Capabilities;
use std::collections::HashMap;

fn assert_empty_but_raw(caps: &Capabilities, raw: &str) {
    assert_eq!(caps.protocol, None);
    assert_eq!(caps.display_type, None);
    assert_eq!(caps.model, None);
    assert_eq!(caps.mccs_version, None);
    assert!(caps.commands.is_empty());
    assert!(caps.vcp_features.is_empty());
    assert_eq!(caps.raw, raw);
}

#[test]
fn single_key_prot() {
    let caps = Capabilities::parse("prot(DDC)");
    assert_eq!(caps.protocol.as_deref(), Some("DDC"));
    assert_eq!(caps.display_type, None);
    assert_eq!(caps.model, None);
    assert_eq!(caps.mccs_version, None);
    assert!(caps.commands.is_empty());
    assert!(caps.vcp_features.is_empty());
}

#[test]
fn single_key_type() {
    let caps = Capabilities::parse("type(lcd)");
    assert_eq!(caps.display_type.as_deref(), Some("lcd"));
    assert_eq!(caps.protocol, None);
    assert_eq!(caps.model, None);
    assert_eq!(caps.mccs_version, None);
    assert!(caps.commands.is_empty());
    assert!(caps.vcp_features.is_empty());
}

#[test]
fn single_key_model() {
    let caps = Capabilities::parse("model(ACME123)");
    assert_eq!(caps.model.as_deref(), Some("ACME123"));
    assert_eq!(caps.protocol, None);
    assert_eq!(caps.display_type, None);
    assert_eq!(caps.mccs_version, None);
    assert!(caps.commands.is_empty());
    assert!(caps.vcp_features.is_empty());
}

#[test]
fn single_key_mccs_ver() {
    let caps = Capabilities::parse("mccs_ver(2.1)");
    assert_eq!(caps.mccs_version.as_deref(), Some("2.1"));
    assert_eq!(caps.protocol, None);
    assert_eq!(caps.display_type, None);
    assert_eq!(caps.model, None);
    assert!(caps.commands.is_empty());
    assert!(caps.vcp_features.is_empty());
}

#[test]
fn cmds_order_preserved() {
    let caps = Capabilities::parse("cmds(01 02 03)");
    assert_eq!(caps.commands, vec!["01".to_string(), "02".to_string(), "03".to_string()]);
}

#[test]
fn vcp_codes_and_values() {
    let caps = Capabilities::parse("vcp(10 12 60(01 03 11))");
    let mut expected: HashMap<u8, Vec<u16>> = HashMap::new();
    expected.insert(0x10, vec![]);
    expected.insert(0x12, vec![]);
    expected.insert(0x60, vec![0x01, 0x03, 0x11]);
    assert_eq!(caps.vcp_features, expected);
}

#[test]
fn nested_value_extracted_whole() {
    let caps = Capabilities::parse("model(a(b)c) prot(X)");
    assert_eq!(caps.model.as_deref(), Some("a(b)c"));
    assert_eq!(caps.protocol.as_deref(), Some("X"));
}

#[test]
fn nested_value_of_unknown_key_skipped_whole() {
    let caps = Capabilities::parse("foo(a(b)c)prot(X)");
    assert_eq!(caps.protocol.as_deref(), Some("X"));
    assert_eq!(caps.model, None);
    assert_eq!(caps.display_type, None);
}

#[test]
fn garbage_tolerated() {
    let caps = Capabilities::parse("garbage!! prot(X) ###");
    assert_eq!(caps.protocol.as_deref(), Some("X"));
    assert_eq!(caps.display_type, None);
    assert_eq!(caps.model, None);
    assert_eq!(caps.mccs_version, None);
    assert!(caps.commands.is_empty());
    assert!(caps.vcp_features.is_empty());
}

#[test]
fn empty_input() {
    let caps = Capabilities::parse("");
    assert_empty_but_raw(&caps, "");
}

#[test]
fn bare_parens_input() {
    let caps = Capabilities::parse("()");
    assert_empty_but_raw(&caps, "()");
}

#[test]
fn outer_parens_stripped() {
    let caps = Capabilities::parse("(prot(DDC)type(lcd))");
    assert_eq!(caps.protocol.as_deref(), Some("DDC"));
    assert_eq!(caps.display_type.as_deref(), Some("lcd"));
}

#[test]
fn surrounding_whitespace_ignored() {
    let caps = Capabilities::parse("  \t(prot(DDC))\r\n ");
    assert_eq!(caps.protocol.as_deref(), Some("DDC"));
}

#[test]
fn duplicate_key_last_wins() {
    let caps = Capabilities::parse("prot(A) prot(B)");
    assert_eq!(caps.protocol.as_deref(), Some("B"));
}

#[test]
fn duplicate_vcp_replaced_wholesale() {
    let caps = Capabilities::parse("vcp(10) vcp(12)");
    let mut expected: HashMap<u8, Vec<u16>> = HashMap::new();
    expected.insert(0x12, vec![]);
    assert_eq!(caps.vcp_features, expected);
}

#[test]
fn duplicate_cmds_replaced_wholesale() {
    let caps = Capabilities::parse("cmds(01 02) cmds(03)");
    assert_eq!(caps.commands, vec!["03".to_string()]);
}

#[test]
fn vcp_garbage_between_entries_skipped() {
    let caps = Capabilities::parse("vcp(zz 10 !! 12(01 xx 02))");
    let mut expected: HashMap<u8, Vec<u16>> = HashMap::new();
    expected.insert(0x10, vec![]);
    expected.insert(0x12, vec![0x01, 0x02]);
    assert_eq!(caps.vcp_features, expected);
}

#[test]
fn vcp_code_out_of_range_dropped() {
    let caps = Capabilities::parse("vcp(fff 10)");
    let mut expected: HashMap<u8, Vec<u16>> = HashMap::new();
    expected.insert(0x10, vec![]);
    assert_eq!(caps.vcp_features, expected);
}

#[test]
fn vcp_group_after_dropped_code_reads_as_entries() {
    // When an out-of-range code is dropped, the group after it is not
    // consumed with it: its members read as top-level codes.
    let caps = Capabilities::parse("vcp(fff(01 02))");
    let mut expected: HashMap<u8, Vec<u16>> = HashMap::new();
    expected.insert(0x01, vec![]);
    expected.insert(0x02, vec![]);
    assert_eq!(caps.vcp_features, expected);
}

#[test]
fn vcp_value_out_of_range_dropped() {
    let caps = Capabilities::parse("vcp(60(10000 11))");
    let mut expected: HashMap<u8, Vec<u16>> = HashMap::new();
    expected.insert(0x60, vec![0x11]);
    assert_eq!(caps.vcp_features, expected);
}

#[test]
fn vcp_value_with_plus_sign_accepted() {
    let caps = Capabilities::parse("vcp(60(+11))");
    let mut expected: HashMap<u8, Vec<u16>> = HashMap::new();
    expected.insert(0x60, vec![0x11]);
    assert_eq!(caps.vcp_features, expected);
}

#[test]
fn vcp_whitespace_before_group_allowed() {
    let caps = Capabilities::parse("vcp(60 (01 11))");
    let mut expected: HashMap<u8, Vec<u16>> = HashMap::new();
    expected.insert(0x60, vec![0x01, 0x11]);
    assert_eq!(caps.vcp_features, expected);
}

#[test]
fn unterminated_value_runs_to_end() {
    let caps = Capabilities::parse("prot(DDC");
    assert_eq!(caps.protocol.as_deref(), Some("DDC"));
}

#[test]
fn empty_value_is_empty_string() {
    let caps = Capabilities::parse("prot()");
    assert_eq!(caps.protocol.as_deref(), Some(""));
}

#[test]
fn unknown_key_ignored_others_kept() {
    let caps = Capabilities::parse("(prot(monitor)type(LCD)model(U2723QE)mystery(a b (c d))mccs_ver(2.2))");
    assert_eq!(caps.protocol.as_deref(), Some("monitor"));
    assert_eq!(caps.display_type.as_deref(), Some("LCD"));
    assert_eq!(caps.model.as_deref(), Some("U2723QE"));
    assert_eq!(caps.mccs_version.as_deref(), Some("2.2"));
}

#[test]
fn raw_input_retained() {
    let caps = Capabilities::parse("  garbage prot(X)  ");
    assert_eq!(caps.raw, "  garbage prot(X)  ");
}

#[test]
fn key_without_group_ignored() {
    let caps = Capabilities::parse("prot prot(X)");
    assert_eq!(caps.protocol.as_deref(), Some("X"));
}

#[test]
fn cmds_empty_value_gives_no_commands() {
    let caps = Capabilities::parse("cmds()");
    assert!(caps.commands.is_empty());
}

#[test]
fn vcp_empty_value_gives_no_features() {
    let caps = Capabilities::parse("vcp()");
    assert!(caps.vcp_features.is_empty());
}
