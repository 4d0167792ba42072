use std::cell::RefCell;

use monitor_probe::infra::winapi::ddc::sys::vcp::{
    vcp_read_outcome, vcp_write_outcome,
    failed_codes, first_code_list, format_codes, read_vcp_feature, read_vcp_features, select_vcp_features,
    write_vcp_feature, write_vcp_features, VcpFeature,
};

#[test]
fn reads_take_the_first_answer() {
    let read = |pm: usize, code: u8| -> Result<(u32, u32), &'static str> {
        if code == 0x14 {
            Err("e")
        } else if pm == 0 && code == 0x12 {
            Err("first")
        } else {
            Ok((code as u32 + pm as u32, 100))
        }
    };
    let (got, last) = read_vcp_features(&vec![0x10, 0x12, 0x10, 0x14], 2, read);
    assert_eq!(got.len(), 2);
    assert_eq!(got.get(&0x10), Some(&(0x10, 100)));
    assert_eq!(got.get(&0x12), Some(&(0x13, 100)));
    assert_eq!(got.get(&0x14), None);
    assert_eq!(last, Some("e"));
    assert_eq!(read_vcp_feature(2, 0x12, read), Ok((0x13, 100)));
    assert_eq!(read_vcp_feature(2, 0x14, read), Err(Some("e")));
    assert_eq!(read_vcp_feature(0, 0x10, read), Err(None));
}

#[test]
fn writes_go_to_every_monitor_once_per_code() {
    let calls = RefCell::new(Vec::new());
    let write = |pm: usize, code: u8, value: u32| -> Result<(), usize> {
        calls.borrow_mut().push((pm, code, value));
        if code == 0x12 {
            Err(pm)
        } else if pm == 0 {
            Err(99)
        } else {
            Ok(())
        }
    };
    let (status, last) = write_vcp_features(&vec![(0x10, 50), (0x12, 1), (0x10, 70)], 2, &write);
    assert_eq!(status, vec![(0x10, true), (0x12, false)]);
    assert_eq!(last, Some(1));
    assert_eq!(*calls.borrow(), vec![(0, 0x10, 50), (1, 0x10, 50), (0, 0x12, 1), (1, 0x12, 1)]);
    assert_eq!(failed_codes(&status), vec![0x12]);
    assert_eq!(write_vcp_feature(2, 0x10, 5, &write), Ok(()));
    assert_eq!(write_vcp_feature(2, 0x12, 5, &write), Err(Some(1)));
}

#[test]
fn failed_codes_are_formatted() {
    assert_eq!(format_codes(&vec![0x0A, 0xFF]), "0x0A 0xFF");
    assert_eq!(format_codes(&vec![]), "");
}

#[test]
fn features_follow_the_capability_order() {
    let mut got = std::collections::HashMap::new();
    got.insert(0x60u8, (15u32, 18u32));
    got.insert(0x10u8, (50u32, 100u32));
    let f = select_vcp_features(&vec![0x10, 0x12, 0x60], &got);
    assert_eq!(
        f,
        vec![
            VcpFeature { vcp_code: 0x10, current: 50, maximum: 100 },
            VcpFeature { vcp_code: 0x60, current: 15, maximum: 18 }
        ]
    );
}

#[test]
fn first_list_with_codes() {
    assert_eq!(first_code_list(&vec![vec![], vec![1], vec![2]]), Some(1));
    assert_eq!(first_code_list(&vec![vec![], vec![]]), None);
}

#[test]
fn read_outcome_fails_only_when_nothing_answered() {
    let mut got = std::collections::HashMap::new();
    got.insert(0x10u8, (30u32, 100u32));
    assert_eq!(vcp_read_outcome(got.clone(), Some("busy")), Ok(got));
    assert_eq!(
        vcp_read_outcome(std::collections::HashMap::new(), Some("busy")),
        Err(Some("busy"))
    );
    assert_eq!(vcp_read_outcome::<&str>(std::collections::HashMap::new(), None), Err(None));
}

#[test]
fn write_outcome_names_the_refused_codes() {
    let ok = vec![(0x10u8, true), (0x12u8, true)];
    assert_eq!(vcp_write_outcome(ok.clone(), Some(5)), Ok(ok));
    let mixed = vec![(0x10u8, false), (0x12u8, true), (0x14u8, false)];
    assert_eq!(vcp_write_outcome(mixed, Some(5)), Err((vec![0x10, 0x14], Some(5))));
    assert_eq!(vcp_write_outcome::<i32>(vec![], None), Ok(vec![]));
}
