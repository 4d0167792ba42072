//! What the monitor list is assembled from: the monitors that the DDC/CI
//! and EDID back ends discover, and the ports through which they are asked.

use vstd::prelude::*;

verus! {

/// The identifying fields of a monitor's EDID, as discovered.
#[derive(Debug, Clone, PartialEq, Eq)]
pub struct DiscoveredEdid {
    pub identifier: String,
    pub vendor: String,
    pub product_id: u16,
    pub serial: u32,
    pub week: u8,
    pub year: u16,
}

/// A monitor found over DDC/CI: its logical display name
/// (`\\.\DISPLAY1`) and, when known, its friendly name.
#[derive(Debug, Clone, PartialEq, Eq)]
pub struct DdcDiscoveredMonitor {
    pub logical_name: String,
    pub friendly_name: Option<String>,
}

/// A monitor whose EDID was read, under its logical display name.
#[derive(Debug, Clone, PartialEq, Eq)]
pub struct EdidDiscoveredMonitor {
    pub logical_name: String,
    pub edid: DiscoveredEdid,
}

/// Why a back end could not list monitors.
#[derive(Debug, Clone, Copy, PartialEq, Eq, Structural)]
pub enum GetMonitorsPortError {
    MonitorsNotFound,
    BackendUnavailable,
}

impl GetMonitorsPortError {
    /// The text that the error displays.
    pub fn describe(&self) -> (r: String)
        ensures
            r@ == match *self {
                GetMonitorsPortError::MonitorsNotFound => "monitors not found"@,
                GetMonitorsPortError::BackendUnavailable => "monitor backend unavailable"@,
            },
    {
        match self {
            GetMonitorsPortError::MonitorsNotFound => String::from_str("monitors not found"),
            GetMonitorsPortError::BackendUnavailable => String::from_str("monitor backend unavailable"),
        }
    }
}

/// The mathematical value of the identifying EDID fields.
pub struct EdidModel {
    pub identifier: Seq<char>,
    pub vendor: Seq<char>,
    pub product_id: u16,
    pub serial: u32,
    pub week: u8,
    pub year: u16,
}

/// The mathematical value of a monitor found over DDC/CI.
pub struct DdcMonitorModel {
    pub logical_name: Seq<char>,
    pub friendly_name: Option<Seq<char>>,
}

/// The mathematical value of a monitor whose EDID was read.
pub struct EdidMonitorModel {
    pub logical_name: Seq<char>,
    pub edid: EdidModel,
}

/// The value of an optional string.
pub open spec fn opt_string_view(o: Option<String>) -> Option<Seq<char>> {
    match o {
        Some(s) => Some(s@),
        None => None,
    }
}

impl View for DiscoveredEdid {
    type V = EdidModel;

    open spec fn view(&self) -> EdidModel {
        EdidModel {
            identifier: self.identifier@,
            vendor: self.vendor@,
            product_id: self.product_id,
            serial: self.serial,
            week: self.week,
            year: self.year,
        }
    }
}

impl View for DdcDiscoveredMonitor {
    type V = DdcMonitorModel;

    open spec fn view(&self) -> DdcMonitorModel {
        DdcMonitorModel {
            logical_name: self.logical_name@,
            friendly_name: opt_string_view(self.friendly_name),
        }
    }
}

impl View for EdidDiscoveredMonitor {
    type V = EdidMonitorModel;

    open spec fn view(&self) -> EdidMonitorModel {
        EdidMonitorModel { logical_name: self.logical_name@, edid: self.edid@ }
    }
}

/// The values of a list of DDC/CI monitors.
pub open spec fn ddc_monitors_view(v: Seq<DdcDiscoveredMonitor>) -> Seq<DdcMonitorModel> {
    v.map_values(|m: DdcDiscoveredMonitor| m@)
}

/// The values of a list of monitors with EDIDs.
pub open spec fn edid_monitors_view(v: Seq<EdidDiscoveredMonitor>) -> Seq<EdidMonitorModel> {
    v.map_values(|m: EdidDiscoveredMonitor| m@)
}

/// The value of what the DDC/CI back end answered.
pub open spec fn ddc_answer_view(r: Result<Vec<DdcDiscoveredMonitor>, GetMonitorsPortError>) -> Result<
    Seq<DdcMonitorModel>,
    GetMonitorsPortError,
> {
    match r {
        Ok(v) => Ok(ddc_monitors_view(v@)),
        Err(e) => Err(e),
    }
}

/// The value of what the EDID back end answered.
pub open spec fn edid_answer_view(r: Result<Vec<EdidDiscoveredMonitor>, GetMonitorsPortError>) -> Result<
    Seq<EdidMonitorModel>,
    GetMonitorsPortError,
> {
    match r {
        Ok(v) => Ok(edid_monitors_view(v@)),
        Err(e) => Err(e),
    }
}

/// A source of the monitors that DDC/CI reaches.
pub trait GetDdcMonitorsPort: Send + Sync {
    /// Whether `answer` is an answer that this back end can give; a back
    /// end that says nothing of its answers allows any.
    open spec fn can_answer_ddc(&self, answer: Result<Seq<DdcMonitorModel>, GetMonitorsPortError>) -> bool {
        true
    }

    fn get_ddc_monitors(&self) -> (r: Result<Vec<DdcDiscoveredMonitor>, GetMonitorsPortError>)
        ensures
            self.can_answer_ddc(ddc_answer_view(r)),
    ;
}

/// A source of the monitors whose EDID can be read.
pub trait GetEdidMonitorsPort: Send + Sync {
    /// Whether `answer` is an answer that this back end can give; a back
    /// end that says nothing of its answers allows any.
    open spec fn can_answer_edid(&self, answer: Result<Seq<EdidMonitorModel>, GetMonitorsPortError>) -> bool {
        true
    }

    fn get_edid_monitors(&self) -> (r: Result<Vec<EdidDiscoveredMonitor>, GetMonitorsPortError>)
        ensures
            self.can_answer_edid(edid_answer_view(r)),
    ;
}

} // verus!
