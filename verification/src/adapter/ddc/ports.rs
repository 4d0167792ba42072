//! What the DDC/CI platform layer reports.

use vstd::prelude::*;

use crate::application::monitor::get_monitors::ports::{opt_string_view, DdcMonitorModel};

verus! {

/// A physical monitor as the platform lists it.
#[derive(Debug, Clone, PartialEq, Eq)]
pub struct PlatformDdcMonitor {
    pub logical_name: String,
    pub friendly_name: Option<String>,
}

/// The platform could not list physical monitors.
#[derive(Debug, Clone, Copy, PartialEq, Eq, Structural)]
pub enum DdcPlatformPortError {
    Unavailable,
}

impl View for PlatformDdcMonitor {
    type V = DdcMonitorModel;

    open spec fn view(&self) -> DdcMonitorModel {
        DdcMonitorModel {
            logical_name: self.logical_name@,
            friendly_name: opt_string_view(self.friendly_name),
        }
    }
}

/// The values of a platform listing.
pub open spec fn platform_ddc_view(v: Seq<PlatformDdcMonitor>) -> Seq<DdcMonitorModel> {
    v.map_values(|m: PlatformDdcMonitor| m@)
}

/// The value of what the platform answered.
pub open spec fn platform_ddc_answer_view(r: Result<Vec<PlatformDdcMonitor>, DdcPlatformPortError>) -> Result<
    Seq<DdcMonitorModel>,
    DdcPlatformPortError,
> {
    match r {
        Ok(v) => Ok(platform_ddc_view(v@)),
        Err(e) => Err(e),
    }
}

/// The platform's list of physical monitors.
pub trait DdcPlatformPort: Send + Sync {
    /// Whether `listing` is an answer that this platform layer can give;
    /// a layer that says nothing of its answers allows any.
    open spec fn can_list_ddc(&self, listing: Result<Seq<DdcMonitorModel>, DdcPlatformPortError>) -> bool {
        true
    }

    fn list_ddc_monitors(&self) -> (r: Result<Vec<PlatformDdcMonitor>, DdcPlatformPortError>)
        ensures
            self.can_list_ddc(platform_ddc_answer_view(r)),
    ;
}

} // verus!
