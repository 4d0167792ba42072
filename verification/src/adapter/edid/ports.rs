//! What the EDID platform layer reports.

use vstd::prelude::*;

use crate::application::monitor::get_monitors::ports::{EdidModel, EdidMonitorModel};

verus! {

/// The identifying EDID fields as the platform decoded them.
#[derive(Debug, Clone, PartialEq, Eq)]
pub struct PlatformBasicEdid {
    pub identifier: String,
    pub vendor: String,
    pub product_id: u16,
    pub serial: u32,
    pub week: u8,
    pub year: u16,
}

/// An active display with its EDID.
#[derive(Debug, Clone, PartialEq, Eq)]
pub struct PlatformEdidMonitor {
    pub logical_name: String,
    pub edid: PlatformBasicEdid,
}

/// The platform could not read EDIDs.
#[derive(Debug, Clone, Copy, PartialEq, Eq, Structural)]
pub enum EdidPlatformPortError {
    Unavailable,
}

impl View for PlatformBasicEdid {
    type V = EdidModel;

    open spec fn view(&self) -> EdidModel {
        EdidModel {
            identifier: self.identifier@,
            vendor: self.vendor@,
            product_id: self.product_id,
            serial: self.serial,
            week: self.week,
            year: self.year,
        }
    }
}

impl View for PlatformEdidMonitor {
    type V = EdidMonitorModel;

    open spec fn view(&self) -> EdidMonitorModel {
        EdidMonitorModel { logical_name: self.logical_name@, edid: self.edid@ }
    }
}

/// The values of a platform listing.
pub open spec fn platform_edid_view(v: Seq<PlatformEdidMonitor>) -> Seq<EdidMonitorModel> {
    v.map_values(|m: PlatformEdidMonitor| m@)
}

/// The value of what the platform answered.
pub open spec fn platform_edid_answer_view(r: Result<Vec<PlatformEdidMonitor>, EdidPlatformPortError>) -> Result<
    Seq<EdidMonitorModel>,
    EdidPlatformPortError,
> {
    match r {
        Ok(v) => Ok(platform_edid_view(v@)),
        Err(e) => Err(e),
    }
}

/// The platform's list of active displays with their EDIDs.
pub trait EdidPlatformPort: Send + Sync {
    /// Whether `listing` is an answer that this platform layer can give;
    /// a layer that says nothing of its answers allows any.
    open spec fn can_list_edid(&self, listing: Result<Seq<EdidMonitorModel>, EdidPlatformPortError>) -> bool {
        true
    }

    fn list_edid_monitors(&self) -> (r: Result<Vec<PlatformEdidMonitor>, EdidPlatformPortError>)
        ensures
            self.can_list_edid(platform_edid_answer_view(r)),
    ;
}

} // verus!
