use monitor_probe::infra::winapi::edid::error::EdidError;
use monitor_probe::infra::winapi::edid::sys::api::{
    classify_edid_value, parse_basic_edid_fields, pnp_device_path_to_registry_path, EdidValueProbe,
};

fn dell_block() -> Vec<u8> {
    let mut e = vec![0u8; 128];
    e[8] = 0x10;
    e[9] = 0xAC;
    e[10] = 0x2B;
    e[11] = 0x1A;
    e[12] = 0x4E;
    e[13] = 0x61;
    e[14] = 0xBC;
    e[15] = 0x00;
    e[16] = 11;
    e[17] = 34;
    e
}

#[test]
fn decodes_identifying_fields() {
    let f = parse_basic_edid_fields(&dell_block()).unwrap();
    assert_eq!(f.vendor, "DEL");
    assert_eq!(f.product_id, 0x1A2B);
    assert_eq!(f.serial, 12345678);
    assert_eq!(f.week, 11);
    assert_eq!(f.year, 2024);
    assert_eq!(f.identifier, "DEL-1A2B-2024W11-12345678");
}

#[test]
fn week_255_and_0_mean_no_week() {
    let mut e = dell_block();
    e[16] = 255;
    let f = parse_basic_edid_fields(&e).unwrap();
    assert_eq!(f.week, 0);
    assert_eq!(f.identifier, "DEL-1A2B-2024W00-12345678");
    e[16] = 0;
    assert_eq!(parse_basic_edid_fields(&e).unwrap().week, 0);
}

#[test]
fn three_digit_week_is_not_padded_further() {
    let mut e = dell_block();
    e[16] = 100;
    assert_eq!(parse_basic_edid_fields(&e).unwrap().identifier, "DEL-1A2B-2024W100-12345678");
}

#[test]
fn zero_letters_read_as_question_marks() {
    let mut e = dell_block();
    e[8] = 0;
    e[9] = 0;
    e[10] = 0x05;
    e[11] = 0x00;
    e[12] = 7;
    e[13] = 0;
    e[14] = 0;
    e[15] = 0;
    e[17] = 0;
    let f = parse_basic_edid_fields(&e).unwrap();
    assert_eq!(f.vendor, "???");
    assert_eq!(f.identifier, "???-0005-1990W11-7");
}

#[test]
fn short_block_is_invalid() {
    let e = vec![0u8; 127];
    match parse_basic_edid_fields(&e) {
        Err(EdidError::InvalidEdid(m)) => {
            assert_eq!(m, "EDID too short (127 bytes). Need at least 128 bytes.");
        }
        other => panic!("unexpected {:?}", other),
    }
    match parse_basic_edid_fields(&[]) {
        Err(err) => assert_eq!(err.describe(), "Invalid EDID: EDID too short (0 bytes). Need at least 128 bytes."),
        other => panic!("unexpected {:?}", other),
    }
}

#[test]
fn registry_path_of_device_path() {
    let p = pnp_device_path_to_registry_path(
        "\\\\?\\DISPLAY#DEL4321#5&abc&0&UID1#{e6f07b5f-ee97-4a90-b076-33f57bf4eaa7}",
    );
    assert_eq!(p, "SYSTEM\\CurrentControlSet\\Enum\\DISPLAY\\DEL4321\\5&abc&0&UID1\\Device Parameters");
}

#[test]
fn registry_path_without_prefix_or_guid() {
    assert_eq!(
        pnp_device_path_to_registry_path("DISPLAY#X"),
        "SYSTEM\\CurrentControlSet\\Enum\\DISPLAY\\X\\Device Parameters"
    );
    assert_eq!(
        pnp_device_path_to_registry_path("\\\\?\\\\\\?\\A"),
        "SYSTEM\\CurrentControlSet\\Enum\\A\\Device Parameters"
    );
    assert_eq!(pnp_device_path_to_registry_path(""), "SYSTEM\\CurrentControlSet\\Enum\\\\Device Parameters");
}

#[test]
fn edid_errors_describe_themselves() {
    let e = EdidError::RegistryOpenFailed { path: "P".to_string(), message: "M".to_string() };
    assert_eq!(e.describe(), "RegOpenKeyExW failed: path=P; M");
    assert_eq!(EdidError::EdidNotFound("K".to_string()).describe(), "EDID not found in registry: K");
    assert_eq!(EdidError::QueryConfigFailed("x".to_string()).describe(), "QueryDisplayConfig failed: x");
}

#[test]
fn registry_answers_are_classified() {
    assert_eq!(classify_edid_value(0, 3), EdidValueProbe::Readable);
    assert_eq!(classify_edid_value(2, 3), EdidValueProbe::Missing);
    assert_eq!(classify_edid_value(2, 1), EdidValueProbe::Missing);
    assert_eq!(classify_edid_value(5, 3), EdidValueProbe::QueryFailed(5));
    assert_eq!(classify_edid_value(234, 0), EdidValueProbe::QueryFailed(234));
    assert_eq!(classify_edid_value(0, 1), EdidValueProbe::NotBinary);
}
