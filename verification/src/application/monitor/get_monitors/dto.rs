//! The request, response and error of the monitor-list use case.

use vstd::prelude::*;

use super::ports::{opt_string_view, EdidModel};

verus! {

/// A request for the monitor list; it carries nothing.
#[derive(Debug, Clone, Copy, PartialEq, Eq, Structural)]
pub struct GetMonitorsRequest;

impl Default for GetMonitorsRequest {
    fn default() -> (r: Self)
        ensures
            r == GetMonitorsRequest,
    {
        GetMonitorsRequest
    }
}

/// The identifying EDID fields shown for a monitor.
#[derive(Debug, Clone, PartialEq, Eq)]
pub struct EdidSummary {
    pub identifier: String,
    pub vendor: String,
    pub product_id: u16,
    pub serial: u32,
    pub week: u8,
    pub year: u16,
}

/// One monitor of the list.
#[derive(Debug, Clone, PartialEq, Eq)]
pub struct MonitorIdentity {
    /// The logical display name by which the user interface refers to the
    /// monitor.
    pub monitor_id: String,
    /// The name to show, when the monitor reports one.
    pub friendly_name: Option<String>,
    /// The EDID fields, when the EDID could be read; the most reliable key.
    pub edid: Option<EdidSummary>,
}

/// The monitor list.
#[derive(Debug, Clone, PartialEq, Eq)]
pub struct GetMonitorsResponse {
    pub monitors: Vec<MonitorIdentity>,
}

/// Why no monitor list could be given.
#[derive(Debug, Clone, Copy, PartialEq, Eq, Structural)]
pub enum GetMonitorsError {
    MonitorsNotFound,
    Unavailable,
}

/// The mathematical value of a monitor of the list.
pub struct MonitorIdentityModel {
    pub monitor_id: Seq<char>,
    pub friendly_name: Option<Seq<char>>,
    pub edid: Option<EdidModel>,
}

impl View for EdidSummary {
    type V = EdidModel;

    open spec fn view(&self) -> EdidModel {
        EdidModel {
            identifier: self.identifier@,
            vendor: self.vendor@,
            product_id: self.product_id,
            serial: self.serial,
            week: self.week,
            year: self.year,
        }
    }
}

/// The value of an optional EDID summary.
pub open spec fn opt_summary_view(o: Option<EdidSummary>) -> Option<EdidModel> {
    match o {
        Some(s) => Some(s@),
        None => None,
    }
}

impl View for MonitorIdentity {
    type V = MonitorIdentityModel;

    open spec fn view(&self) -> MonitorIdentityModel {
        MonitorIdentityModel {
            monitor_id: self.monitor_id@,
            friendly_name: opt_string_view(self.friendly_name),
            edid: opt_summary_view(self.edid),
        }
    }
}

/// The values of the monitors of a list.
pub open spec fn identities_view(v: Seq<MonitorIdentity>) -> Seq<MonitorIdentityModel> {
    v.map_values(|m: MonitorIdentity| m@)
}

/// The value of the use case's answer.
pub open spec fn response_view(r: Result<GetMonitorsResponse, GetMonitorsError>) -> Result<
    Seq<MonitorIdentityModel>,
    GetMonitorsError,
> {
    match r {
        Ok(resp) => Ok(identities_view(resp.monitors@)),
        Err(e) => Err(e),
    }
}

} // verus!
