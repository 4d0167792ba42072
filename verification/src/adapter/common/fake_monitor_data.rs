//! Two sample monitors, for running the user interface without hardware.

use vstd::prelude::*;

use crate::application::monitor::get_monitors::ports::{
    DdcDiscoveredMonitor, DdcMonitorModel, DiscoveredEdid, EdidDiscoveredMonitor, EdidModel,
    EdidMonitorModel,
};

verus! {

pub const DISPLAY1_LOGICAL_NAME: &'static str = "\\\\.\\DISPLAY1";

pub const DISPLAY2_LOGICAL_NAME: &'static str = "\\\\.\\DISPLAY2";

pub const DISPLAY1_FRIENDLY_NAME: &'static str = "DELL U2720Q";

pub const DISPLAY2_FRIENDLY_NAME: &'static str = "LG ULTRAWIDE";

/// The first sample monitor as DDC/CI reports it.
pub fn display1_ddc_monitor() -> (r: DdcDiscoveredMonitor)
    ensures
        r@ == (DdcMonitorModel {
            logical_name: DISPLAY1_LOGICAL_NAME@,
            friendly_name: Some(DISPLAY1_FRIENDLY_NAME@),
        }),
{
    DdcDiscoveredMonitor {
        logical_name: String::from_str(DISPLAY1_LOGICAL_NAME),
        friendly_name: Some(String::from_str(DISPLAY1_FRIENDLY_NAME)),
    }
}

/// The second sample monitor as DDC/CI reports it.
pub fn display2_ddc_monitor() -> (r: DdcDiscoveredMonitor)
    ensures
        r@ == (DdcMonitorModel {
            logical_name: DISPLAY2_LOGICAL_NAME@,
            friendly_name: Some(DISPLAY2_FRIENDLY_NAME@),
        }),
{
    DdcDiscoveredMonitor {
        logical_name: String::from_str(DISPLAY2_LOGICAL_NAME),
        friendly_name: Some(String::from_str(DISPLAY2_FRIENDLY_NAME)),
    }
}

/// The first sample monitor with its EDID, as a value.
pub open spec fn display1_edid_monitor_spec() -> EdidMonitorModel {
    EdidMonitorModel {
        logical_name: DISPLAY1_LOGICAL_NAME@,
        edid: EdidModel {
            identifier: "DEL-1A2B-2024W11-12345678"@,
            vendor: "DEL"@,
            product_id: 0x1A2B,
            serial: 12345678,
            week: 11,
            year: 2024,
        },
    }
}

/// The second sample monitor with its EDID, as a value.
pub open spec fn display2_edid_monitor_spec() -> EdidMonitorModel {
    EdidMonitorModel {
        logical_name: DISPLAY2_LOGICAL_NAME@,
        edid: EdidModel {
            identifier: "GSM-4C2D-2023W09-87654321"@,
            vendor: "GSM"@,
            product_id: 0x4C2D,
            serial: 87654321,
            week: 9,
            year: 2023,
        },
    }
}

/// The first sample monitor with its EDID.
pub fn display1_edid_monitor() -> (r: EdidDiscoveredMonitor)
    ensures
        r@ == display1_edid_monitor_spec(),
{
    EdidDiscoveredMonitor {
        logical_name: String::from_str(DISPLAY1_LOGICAL_NAME),
        edid: DiscoveredEdid {
            identifier: String::from_str("DEL-1A2B-2024W11-12345678"),
            vendor: String::from_str("DEL"),
            product_id: 0x1A2B,
            serial: 12345678,
            week: 11,
            year: 2024,
        },
    }
}

/// The second sample monitor with its EDID.
pub fn display2_edid_monitor() -> (r: EdidDiscoveredMonitor)
    ensures
        r@ == display2_edid_monitor_spec(),
{
    EdidDiscoveredMonitor {
        logical_name: String::from_str(DISPLAY2_LOGICAL_NAME),
        edid: DiscoveredEdid {
            identifier: String::from_str("GSM-4C2D-2023W09-87654321"),
            vendor: String::from_str("GSM"),
            product_id: 0x4C2D,
            serial: 87654321,
            week: 9,
            year: 2023,
        },
    }
}

} // verus!
