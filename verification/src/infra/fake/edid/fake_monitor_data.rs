//! Two sample displays with EDIDs as the EDID platform layer lists them.

use vstd::prelude::*;

use crate::adapter::edid::ports::{PlatformBasicEdid, PlatformEdidMonitor};
use crate::application::monitor::get_monitors::ports::{EdidModel, EdidMonitorModel};
use crate::infra::fake::ddc::fake_monitor_data::{DISPLAY1_LOGICAL_NAME, DISPLAY2_LOGICAL_NAME};

verus! {

/// The first sample display, as a value.
pub open spec fn platform_edid_display1() -> EdidMonitorModel {
    EdidMonitorModel {
        logical_name: DISPLAY1_LOGICAL_NAME@,
        edid: EdidModel {
            identifier: "DEL-1A2B-2024W11-12345678"@,
            vendor: "DEL"@,
            product_id: 0x1A2B,
            serial: 12345678,
            week: 11,
            year: 2024,
        },
    }
}

/// The second sample display, as a value.
pub open spec fn platform_edid_display2() -> EdidMonitorModel {
    EdidMonitorModel {
        logical_name: DISPLAY2_LOGICAL_NAME@,
        edid: EdidModel {
            identifier: "GSM-4C2D-2023W09-87654321"@,
            vendor: "GSM"@,
            product_id: 0x4C2D,
            serial: 87654321,
            week: 9,
            year: 2023,
        },
    }
}

/// The first sample display with its EDID.
pub fn display1_edid_monitor() -> (r: PlatformEdidMonitor)
    ensures
        r@ == platform_edid_display1(),
{
    PlatformEdidMonitor {
        logical_name: String::from_str(DISPLAY1_LOGICAL_NAME),
        edid: PlatformBasicEdid {
            identifier: String::from_str("DEL-1A2B-2024W11-12345678"),
            vendor: String::from_str("DEL"),
            product_id: 0x1A2B,
            serial: 12345678,
            week: 11,
            year: 2024,
        },
    }
}

/// The second sample display with its EDID.
pub fn display2_edid_monitor() -> (r: PlatformEdidMonitor)
    ensures
        r@ == platform_edid_display2(),
{
    PlatformEdidMonitor {
        logical_name: String::from_str(DISPLAY2_LOGICAL_NAME),
        edid: PlatformBasicEdid {
            identifier: String::from_str("GSM-4C2D-2023W09-87654321"),
            vendor: String::from_str("GSM"),
            product_id: 0x4C2D,
            serial: 87654321,
            week: 9,
            year: 2023,
        },
    }
}

} // verus!
