use monitor_probe::infra::winapi::ddc::sys::caps_parse::{parse_capabilities, Node};
use monitor_probe::infra::winapi::ddc::sys::error::{CapabilitiesParseError, DdcError};

const DELL: &str = "(prot(monitor)type(lcd)model(U2720Q)cmds(01 02 03 07 0C E3 F3)vcp(02 04 05 08 10 12 14(05 08 0B) 16 18 1A 52 60(0F 11 1B) AC AE B2 B6 C6 C8 C9 D6(01 04 05) DF)mswhql(1)asset_eep(40)mccs_ver(2.1))";

fn meta(p: &monitor_probe::infra::winapi::ddc::sys::caps_parse::CapabilitiesParsed) -> Vec<(String, String)> {
    p.meta.clone()
}

#[test]
fn parses_a_full_capability_string() {
    let p = parse_capabilities(DELL).unwrap();
    assert_eq!(p.cmds, vec![0x01, 0x02, 0x03, 0x07, 0x0C, 0xE3, 0xF3]);
    assert_eq!(
        p.vcp_codes,
        vec![
            0x02, 0x04, 0x05, 0x08, 0x10, 0x12, 0x14, 0x16, 0x18, 0x1A, 0x52, 0x60, 0xAC, 0xAE, 0xB2,
            0xB6, 0xC6, 0xC8, 0xC9, 0xD6, 0xDF
        ]
    );
    assert_eq!(p.vcp_subs.len(), 3);
    assert_eq!(p.vcp_subs.get(&0x14), Some(&vec![0x05, 0x08, 0x0B]));
    assert_eq!(p.vcp_subs.get(&0x60), Some(&vec![0x0F, 0x11, 0x1B]));
    assert_eq!(p.vcp_subs.get(&0xD6), Some(&vec![0x01, 0x04, 0x05]));
    let expected: Vec<(String, String)> = vec![
        ("prot".to_string(), "monitor".to_string()),
        ("type".to_string(), "lcd".to_string()),
        ("model".to_string(), "U2720Q".to_string()),
        ("mswhql".to_string(), "1".to_string()),
        ("asset_eep".to_string(), "40".to_string()),
        ("mccs_ver".to_string(), "2.1".to_string()),
    ];
    assert_eq!(meta(&p), expected);
    let keys: Vec<&str> = p.sections.iter().map(|(k, _)| k.as_str()).collect();
    assert_eq!(keys, vec!["prot", "type", "model", "cmds", "vcp", "mswhql", "asset_eep", "mccs_ver"]);
    assert_eq!(p.sections[0].1, vec![Some(vec![Node::Atom("monitor".to_string())])]);
}

#[test]
fn blank_string_parses_to_nothing() {
    for raw in ["", "   ", "\t\n"] {
        let p = parse_capabilities(raw).unwrap();
        assert!(p.meta.is_empty());
        assert!(p.cmds.is_empty());
        assert!(p.vcp_codes.is_empty());
        assert!(p.vcp_subs.is_empty());
        assert!(p.sections.is_empty());
    }
}

#[test]
fn string_without_group_is_rejected() {
    let e = parse_capabilities("garbage").unwrap_err();
    assert_eq!(e.message, "Capabilities string does not start with '(' after normalization");
    assert_eq!(e.describe(), e.message);
}

#[test]
fn trailing_tokens_are_rejected() {
    let e = parse_capabilities("(a) (b)").unwrap_err();
    assert_eq!(e.message, "Trailing tokens remain: idx=3 len=6");
}

#[test]
fn unclosed_group_is_rejected() {
    let e = parse_capabilities("(a(b").unwrap_err();
    assert_eq!(e.message, "Unexpected end while parsing group");
}

#[test]
fn text_around_the_group_is_ignored() {
    let p = parse_capabilities("  xx(vcp(10))yy  ").unwrap();
    assert_eq!(p.vcp_codes, vec![0x10]);
    assert!(p.cmds.is_empty());
}

#[test]
fn repeated_codes_are_listed_once() {
    let p = parse_capabilities("(cmds(01 01 02) vcp(10 10 12(01 01)))").unwrap();
    assert_eq!(p.cmds, vec![0x01, 0x02]);
    assert_eq!(p.vcp_codes, vec![0x10, 0x12]);
    assert_eq!(p.vcp_subs.get(&0x12), Some(&vec![0x01]));
    assert_eq!(p.vcp_subs.get(&0x10), None);
}

#[test]
fn section_names_are_lower_cased() {
    let p = parse_capabilities("(VCP(10) CMDS(01))").unwrap();
    assert_eq!(p.vcp_codes, vec![0x10]);
    assert_eq!(p.cmds, vec![0x01]);
    assert_eq!(p.sections[0].0, "vcp");
    assert_eq!(p.sections[1].0, "cmds");
}

#[test]
fn cmdlist_is_read_when_cmds_is_absent() {
    let p = parse_capabilities("(cmdlist(0A 0b))").unwrap();
    assert_eq!(p.cmds, vec![0x0A, 0x0B]);
}

#[test]
fn cmds_wins_over_cmdlist() {
    let p = parse_capabilities("(cmdlist(0A) cmds(0C))").unwrap();
    assert_eq!(p.cmds, vec![0x0C]);
}

#[test]
fn tokens_that_are_not_hex_bytes_are_skipped() {
    let p = parse_capabilities("(vcp(10 XYZ 123 G1 f))").unwrap();
    assert_eq!(p.vcp_codes, vec![0x10, 0x0F]);
}

#[test]
fn description_comes_from_first_group_with_atoms() {
    let p = parse_capabilities("(model() model(X Y))").unwrap();
    assert_eq!(meta(&p), vec![("model".to_string(), "X Y".to_string())]);
    assert_eq!(p.sections.len(), 1);
    assert_eq!(p.sections[0].1.len(), 2);
}

#[test]
fn nested_sub_codes_are_flattened() {
    let p = parse_capabilities("(vcp(14(05 (08))))").unwrap();
    assert_eq!(p.vcp_codes, vec![0x14]);
    assert_eq!(p.vcp_subs.get(&0x14), Some(&vec![0x05, 0x08]));
}

#[test]
fn last_sub_code_list_of_a_code_wins() {
    let p = parse_capabilities("(vcp(14(05) 14(06)))").unwrap();
    assert_eq!(p.vcp_codes, vec![0x14]);
    assert_eq!(p.vcp_subs.get(&0x14), Some(&vec![0x06]));
}

#[test]
fn section_without_group_has_no_value() {
    let p = parse_capabilities("(flag vcp(10))").unwrap();
    assert_eq!(p.sections[0].0, "flag");
    assert_eq!(p.sections[0].1, vec![None]);
    assert!(p.meta.is_empty());
}

#[test]
fn nodes_clone_exactly() {
    let n = Node::List(vec![Node::Atom("a".to_string()), Node::List(vec![Node::Atom("b".to_string())])]);
    assert_eq!(n.clone(), n);
}

#[test]
fn ddc_errors_describe_themselves() {
    let e = DdcError::from(CapabilitiesParseError::new("bad".to_string()));
    assert_eq!(e.describe(), "Capabilities parse failed: bad");
    assert_eq!(DdcError::NoVcpCodeList.describe(), "No vcp codes found in capabilities");
    assert_eq!(DdcError::VcpSetFailed("x".to_string()).describe(), "SetVCPFeature failed: x");
    let io = DdcError::EnumDisplayFailed(std::io::Error::new(std::io::ErrorKind::Other, "boom"));
    assert_eq!(io.describe(), "EnumDisplayMonitors failed: boom");
}

#[test]
fn text_outside_the_parentheses_is_ignored() {
    let inner = "(prot(monitor) vcp(10 12))";
    let framed = format!("DELL) vendor{}x\0", inner);
    assert_eq!(parse_capabilities(&framed).unwrap(), parse_capabilities(inner).unwrap());
    let with_nul = format!("{}\0", inner);
    assert_eq!(parse_capabilities(&with_nul).unwrap(), parse_capabilities(inner).unwrap());
}

#[test]
fn section_names_are_trimmed_and_lower_cased() {
    let p = parse_capabilities("(PROT(monitor) Type(LCD) MODEL(x) prot(other))").unwrap();
    let keys: Vec<&str> = p.sections.iter().map(|(k, _)| k.as_str()).collect();
    assert_eq!(keys, vec!["prot", "type", "model"]);
    for (k, _) in &p.sections {
        assert!(!k.is_empty());
        assert_eq!(k.trim(), k);
        assert_eq!(&k.to_ascii_lowercase(), k);
    }
}

#[test]
fn meta_is_read_off_the_sections() {
    let p = parse_capabilities("(model() model(a (b c)) prot(monitor) cmds(01) vcp(10) empty() type)").unwrap();
    let expected: Vec<(String, String)> = vec![
        ("model".to_string(), "a b c".to_string()),
        ("prot".to_string(), "monitor".to_string()),
    ];
    assert_eq!(meta(&p), expected);
    let keys: Vec<&str> = p.sections.iter().map(|(k, _)| k.as_str()).collect();
    assert_eq!(keys, vec!["model", "prot", "cmds", "vcp", "empty", "type"]);
}
