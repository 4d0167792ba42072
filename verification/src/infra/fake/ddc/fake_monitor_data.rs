//! Two sample physical monitors as the DDC/CI platform layer lists them.

use vstd::prelude::*;

use crate::adapter::ddc::ports::PlatformDdcMonitor;
use crate::application::monitor::get_monitors::ports::DdcMonitorModel;

verus! {

pub const DISPLAY1_LOGICAL_NAME: &'static str = "\\\\.\\DISPLAY1";

pub const DISPLAY2_LOGICAL_NAME: &'static str = "\\\\.\\DISPLAY2";

pub const DISPLAY1_FRIENDLY_NAME: &'static str = "DELL U2720Q";

pub const DISPLAY2_FRIENDLY_NAME: &'static str = "LG ULTRAWIDE";

/// The first sample monitor, with or without its friendly name, as a value.
pub open spec fn platform_display1(friendly: bool) -> DdcMonitorModel {
    DdcMonitorModel {
        logical_name: DISPLAY1_LOGICAL_NAME@,
        friendly_name: if friendly { Some(DISPLAY1_FRIENDLY_NAME@) } else { None },
    }
}

/// The second sample monitor, with or without its friendly name, as a value.
pub open spec fn platform_display2(friendly: bool) -> DdcMonitorModel {
    DdcMonitorModel {
        logical_name: DISPLAY2_LOGICAL_NAME@,
        friendly_name: if friendly { Some(DISPLAY2_FRIENDLY_NAME@) } else { None },
    }
}

/// The first sample monitor.
pub fn display1_ddc_monitor() -> (r: PlatformDdcMonitor)
    ensures
        r@ == platform_display1(true),
{
    PlatformDdcMonitor {
        logical_name: String::from_str(DISPLAY1_LOGICAL_NAME),
        friendly_name: Some(String::from_str(DISPLAY1_FRIENDLY_NAME)),
    }
}

/// The second sample monitor.
pub fn display2_ddc_monitor() -> (r: PlatformDdcMonitor)
    ensures
        r@ == platform_display2(true),
{
    PlatformDdcMonitor {
        logical_name: String::from_str(DISPLAY2_LOGICAL_NAME),
        friendly_name: Some(String::from_str(DISPLAY2_FRIENDLY_NAME)),
    }
}

} // verus!
