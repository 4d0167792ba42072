use monitor_probe::adapter::common::fake_monitor_data::{
    display1_ddc_monitor, display1_edid_monitor, display2_ddc_monitor, display2_edid_monitor,
};
use monitor_probe::adapter::ddc::fake_get_monitors_adapter::FakeDdcGetMonitorsAdapter;
use monitor_probe::adapter::ddc::get_monitors_adapter::{discover_ddc_monitors, DdcGetMonitorsAdapter};
use monitor_probe::adapter::ddc::ports::{DdcPlatformPort, DdcPlatformPortError, PlatformDdcMonitor};
use monitor_probe::adapter::edid::fake_get_monitors_adapter::FakeEdidGetMonitorsAdapter;
use monitor_probe::adapter::edid::get_monitors_adapter::{discover_edid_monitors, EdidGetMonitorsAdapter};
use monitor_probe::adapter::edid::ports::{EdidPlatformPort, EdidPlatformPortError, PlatformBasicEdid, PlatformEdidMonitor};
use monitor_probe::application::monitor::get_monitors::usecase::assemble_monitors;
use monitor_probe::application::monitor::get_monitors::{
    DdcDiscoveredMonitor, DiscoveredEdid, EdidDiscoveredMonitor, GetDdcMonitorsPort, GetEdidMonitorsPort,
    GetMonitorsError, GetMonitorsPortError, GetMonitorsRequest, GetMonitorsUseCase,
};
use monitor_probe::bootstrap::container::{build_fake_app_container, AppContainer};
use monitor_probe::infra::fake::ddc::fake_port::{DdcFakeScenario, FakeDdcPlatformPort};
use monitor_probe::infra::fake::edid::fake_port::{EdidFakeScenario, FakeEdidPlatformPort};

fn ddc(name: &str, friendly: Option<&str>) -> DdcDiscoveredMonitor {
    DdcDiscoveredMonitor { logical_name: name.to_string(), friendly_name: friendly.map(|s| s.to_string()) }
}

fn edid(name: &str, identifier: &str, vendor: &str, serial: u32) -> EdidDiscoveredMonitor {
    EdidDiscoveredMonitor {
        logical_name: name.to_string(),
        edid: DiscoveredEdid {
            identifier: identifier.to_string(),
            vendor: vendor.to_string(),
            product_id: 7,
            serial,
            week: 3,
            year: 2020,
        },
    }
}

#[test]
fn list_trims_names_and_attaches_edid() {
    let r = assemble_monitors(
        Ok(vec![ddc(" \\\\.\\DISPLAY1 ", Some("  Dell  ")), ddc("\\\\.\\DISPLAY2", Some("   "))]),
        Ok(vec![edid("\\\\.\\DISPLAY1", " ID ", " DEL ", 5)]),
    )
    .unwrap();
    assert_eq!(r.monitors.len(), 2);
    assert_eq!(r.monitors[0].monitor_id, "\\\\.\\DISPLAY1");
    assert_eq!(r.monitors[0].friendly_name.as_deref(), Some("Dell"));
    let e = r.monitors[0].edid.as_ref().unwrap();
    assert_eq!(e.identifier, "ID");
    assert_eq!(e.vendor, "DEL");
    assert_eq!((e.product_id, e.serial, e.week, e.year), (7, 5, 3, 2020));
    assert_eq!(r.monitors[1].friendly_name, None);
    assert!(r.monitors[1].edid.is_none());
}

#[test]
fn edid_failure_gives_list_without_edids() {
    let r = assemble_monitors(Ok(vec![ddc("A", None)]), Err(GetMonitorsPortError::BackendUnavailable)).unwrap();
    assert_eq!(r.monitors.len(), 1);
    assert!(r.monitors[0].edid.is_none());
    let same = assemble_monitors(Ok(vec![ddc("A", None)]), Ok(vec![])).unwrap();
    assert_eq!(r, same);
}

#[test]
fn ddc_errors_are_the_answer() {
    assert_eq!(
        assemble_monitors(Err(GetMonitorsPortError::MonitorsNotFound), Ok(vec![edid("A", "x", "y", 1)])),
        Err(GetMonitorsError::MonitorsNotFound)
    );
    assert_eq!(
        assemble_monitors(Err(GetMonitorsPortError::BackendUnavailable), Ok(vec![])),
        Err(GetMonitorsError::Unavailable)
    );
}

#[test]
fn first_edid_for_a_name_wins_and_blank_names_match_nothing() {
    let r = assemble_monitors(
        Ok(vec![ddc("A", None), ddc("  ", None)]),
        Ok(vec![edid(" ", "blank", "V", 0), edid("A ", "first", "V", 1), edid("A", "second", "V", 2)]),
    )
    .unwrap();
    assert_eq!(r.monitors[0].edid.as_ref().unwrap().identifier, "first");
    assert_eq!(r.monitors[1].monitor_id, "");
    assert!(r.monitors[1].edid.is_none());
}

#[test]
fn empty_ddc_list_gives_empty_list() {
    let r = assemble_monitors(Ok(vec![]), Ok(vec![edid("A", "x", "y", 1)])).unwrap();
    assert!(r.monitors.is_empty());
}

fn pddc(name: &str, friendly: Option<&str>) -> PlatformDdcMonitor {
    PlatformDdcMonitor { logical_name: name.to_string(), friendly_name: friendly.map(|s| s.to_string()) }
}

#[test]
fn ddc_discovery_normalises_and_deduplicates() {
    let r = discover_ddc_monitors(Ok(vec![
        pddc("  ", Some("ignored")),
        pddc(" D1 ", Some(" First ")),
        pddc("D1", Some("Second")),
        pddc("D2", Some(" ")),
    ]))
    .unwrap();
    assert_eq!(r, vec![ddc("D1", Some("First")), ddc("D2", None)]);
}

#[test]
fn ddc_discovery_errors() {
    assert_eq!(discover_ddc_monitors(Ok(vec![])), Err(GetMonitorsPortError::MonitorsNotFound));
    assert_eq!(discover_ddc_monitors(Ok(vec![pddc(" ", None)])), Err(GetMonitorsPortError::MonitorsNotFound));
    assert_eq!(
        discover_ddc_monitors(Err(DdcPlatformPortError::Unavailable)),
        Err(GetMonitorsPortError::BackendUnavailable)
    );
}

fn pedid(name: &str, identifier: &str, vendor: &str) -> PlatformEdidMonitor {
    PlatformEdidMonitor {
        logical_name: name.to_string(),
        edid: PlatformBasicEdid {
            identifier: identifier.to_string(),
            vendor: vendor.to_string(),
            product_id: 7,
            serial: 9,
            week: 3,
            year: 2020,
        },
    }
}

#[test]
fn edid_discovery_normalises_and_deduplicates() {
    let r = discover_edid_monitors(Ok(vec![pedid(" D1", " I1 ", " V "), pedid("D1", "I2", "V"), pedid("", "x", "y")]))
        .unwrap();
    assert_eq!(r.len(), 1);
    assert_eq!(r[0].logical_name, "D1");
    assert_eq!(r[0].edid.identifier, "I1");
    assert_eq!(r[0].edid.vendor, "V");
    assert_eq!(r[0].edid.serial, 9);
}

#[test]
fn edid_discovery_errors() {
    assert_eq!(discover_edid_monitors(Ok(vec![])), Err(GetMonitorsPortError::MonitorsNotFound));
    assert_eq!(
        discover_edid_monitors(Err(EdidPlatformPortError::Unavailable)),
        Err(GetMonitorsPortError::BackendUnavailable)
    );
}

#[test]
fn sample_monitors() {
    let d1 = display1_ddc_monitor();
    assert_eq!(d1.logical_name, "\\\\.\\DISPLAY1");
    assert_eq!(d1.friendly_name.as_deref(), Some("DELL U2720Q"));
    assert_eq!(display2_ddc_monitor().friendly_name.as_deref(), Some("LG ULTRAWIDE"));
    let e1 = display1_edid_monitor();
    assert_eq!(e1.edid.identifier, "DEL-1A2B-2024W11-12345678");
    assert_eq!(e1.edid.product_id, 0x1A2B);
    let e2 = display2_edid_monitor();
    assert_eq!(e2.logical_name, "\\\\.\\DISPLAY2");
    assert_eq!(e2.edid.serial, 87654321);
}

#[test]
fn fake_back_ends() {
    let d = FakeDdcGetMonitorsAdapter::new().get_ddc_monitors().unwrap();
    assert_eq!(d.len(), 2);
    assert_eq!(d[0].friendly_name, None);
    assert_eq!(d[1].friendly_name.as_deref(), Some("LG ULTRAWIDE"));
    let e = FakeEdidGetMonitorsAdapter::new().get_edid_monitors().unwrap();
    assert_eq!(e.len(), 1);
    assert_eq!(e[0].logical_name, "\\\\.\\DISPLAY2");
}

#[test]
fn fake_platform_scenarios() {
    assert_eq!(FakeDdcPlatformPort::new(DdcFakeScenario::NoMonitors).list_ddc_monitors(), Ok(vec![]));
    assert_eq!(
        FakeDdcPlatformPort::new(DdcFakeScenario::BackendUnavailable).list_ddc_monitors(),
        Err(DdcPlatformPortError::Unavailable)
    );
    let both = FakeDdcPlatformPort::new(DdcFakeScenario::FriendlyNameMissingOnBoth).list_ddc_monitors().unwrap();
    assert!(both.iter().all(|m| m.friendly_name.is_none()));
    let ok = FakeDdcPlatformPort::new(DdcFakeScenario::Success).list_ddc_monitors().unwrap();
    assert_eq!(ok[0].friendly_name.as_deref(), Some("DELL U2720Q"));
    let e = FakeEdidPlatformPort::new(EdidFakeScenario::EdidMissingOnDisplay2).list_edid_monitors().unwrap();
    assert_eq!(e.len(), 1);
    assert_eq!(e[0].logical_name, "\\\\.\\DISPLAY1");
    assert_eq!(
        FakeEdidPlatformPort::new(EdidFakeScenario::BackendUnavailable).list_edid_monitors(),
        Err(EdidPlatformPortError::Unavailable)
    );
}

#[test]
fn fake_container_lists_sample_monitors() {
    let c = build_fake_app_container();
    let r = c.get_monitors_use_case().execute(GetMonitorsRequest::default()).unwrap();
    assert_eq!(r.monitors.len(), 2);
    assert_eq!(r.monitors[0].monitor_id, "\\\\.\\DISPLAY1");
    assert_eq!(r.monitors[0].friendly_name, None);
    assert!(r.monitors[0].edid.is_none());
    assert_eq!(r.monitors[1].monitor_id, "\\\\.\\DISPLAY2");
    assert_eq!(r.monitors[1].friendly_name.as_deref(), Some("LG ULTRAWIDE"));
    assert_eq!(r.monitors[1].edid.as_ref().unwrap().identifier, "GSM-4C2D-2023W09-87654321");
}

#[test]
fn use_case_over_adapters_reports_platform_failure() {
    let uc = GetMonitorsUseCase::new(
        DdcGetMonitorsAdapter::new(FakeDdcPlatformPort::new(DdcFakeScenario::BackendUnavailable)),
        EdidGetMonitorsAdapter::new(FakeEdidPlatformPort::new(EdidFakeScenario::Success)),
    );
    assert_eq!(uc.execute(GetMonitorsRequest), Err(GetMonitorsError::Unavailable));
    let uc = GetMonitorsUseCase::new(
        DdcGetMonitorsAdapter::new(FakeDdcPlatformPort::new(DdcFakeScenario::NoMonitors)),
        EdidGetMonitorsAdapter::new(FakeEdidPlatformPort::new(EdidFakeScenario::Success)),
    );
    assert_eq!(uc.execute(GetMonitorsRequest), Err(GetMonitorsError::MonitorsNotFound));
    let uc = GetMonitorsUseCase::new(
        DdcGetMonitorsAdapter::new(FakeDdcPlatformPort::new(DdcFakeScenario::Success)),
        EdidGetMonitorsAdapter::new(FakeEdidPlatformPort::new(EdidFakeScenario::NoMonitors)),
    );
    let r = uc.execute(GetMonitorsRequest).unwrap();
    assert_eq!(r.monitors.len(), 2);
    assert!(r.monitors.iter().all(|m| m.edid.is_none()));
    let c = AppContainer::new(uc);
    assert_eq!(c.get_monitors_use_case().execute(GetMonitorsRequest).unwrap(), r);
}

#[test]
fn port_errors_describe_themselves() {
    assert_eq!(GetMonitorsPortError::MonitorsNotFound.describe(), "monitors not found");
    assert_eq!(GetMonitorsPortError::BackendUnavailable.describe(), "monitor backend unavailable");
}

#[test]
fn list_keeps_the_names_that_discovery_reported() {
    let discovered = discover_ddc_monitors(Ok(vec![pddc("  D1\t", Some(" One ")), pddc("D2", None)])).unwrap();
    let r = assemble_monitors(Ok(discovered.clone()), Ok(vec![])).unwrap();
    assert_eq!(r.monitors.len(), discovered.len());
    for (entry, monitor) in r.monitors.iter().zip(discovered.iter()) {
        assert_eq!(entry.monitor_id, monitor.logical_name);
        assert_eq!(entry.friendly_name, monitor.friendly_name);
    }
}
