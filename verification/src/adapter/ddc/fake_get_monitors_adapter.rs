//! A DDC/CI back end that reports the sample monitors, for running the
//! user interface without hardware.

use vstd::prelude::*;

use crate::adapter::common::fake_monitor_data::{
    display1_ddc_monitor, display2_ddc_monitor, DISPLAY1_FRIENDLY_NAME, DISPLAY1_LOGICAL_NAME,
    DISPLAY2_FRIENDLY_NAME, DISPLAY2_LOGICAL_NAME,
};
use crate::application::monitor::get_monitors::ports::{
    ddc_answer_view, ddc_monitors_view, DdcDiscoveredMonitor, DdcMonitorModel, GetDdcMonitorsPort, GetMonitorsPortError,
};

verus! {

/// The situations the sample back end can play.
#[derive(Debug, Clone, Copy, PartialEq, Eq, Structural)]
enum DdcFakeScenario {
    Success,
    FriendlyNameMissingOnDisplay1,
    FriendlyNameMissingOnDisplay2,
    FriendlyNameMissingOnBoth,
    MonitorsNotFound,
    BackendUnavailable,
}

/// The situation that the sample back end plays.
const DDC_FAKE_SCENARIO: DdcFakeScenario = DdcFakeScenario::FriendlyNameMissingOnDisplay1;

/// The two sample monitors, each with or without its friendly name.
pub open spec fn sample_ddc_monitors(friendly1: bool, friendly2: bool) -> Seq<DdcMonitorModel> {
    seq![
        DdcMonitorModel {
            logical_name: DISPLAY1_LOGICAL_NAME@,
            friendly_name: if friendly1 { Some(DISPLAY1_FRIENDLY_NAME@) } else { None },
        },
        DdcMonitorModel {
            logical_name: DISPLAY2_LOGICAL_NAME@,
            friendly_name: if friendly2 { Some(DISPLAY2_FRIENDLY_NAME@) } else { None },
        },
    ]
}

spec fn scenario_spec(scenario: DdcFakeScenario) -> Result<Seq<DdcMonitorModel>, GetMonitorsPortError> {
    match scenario {
        DdcFakeScenario::Success => Ok(sample_ddc_monitors(true, true)),
        DdcFakeScenario::FriendlyNameMissingOnDisplay1 => Ok(sample_ddc_monitors(false, true)),
        DdcFakeScenario::FriendlyNameMissingOnDisplay2 => Ok(sample_ddc_monitors(true, false)),
        DdcFakeScenario::FriendlyNameMissingOnBoth => Ok(sample_ddc_monitors(false, false)),
        DdcFakeScenario::MonitorsNotFound => Err(GetMonitorsPortError::MonitorsNotFound),
        DdcFakeScenario::BackendUnavailable => Err(GetMonitorsPortError::BackendUnavailable),
    }
}

fn sample_pair(friendly1: bool, friendly2: bool) -> (r: Vec<DdcDiscoveredMonitor>)
    ensures
        ddc_monitors_view(r@) == sample_ddc_monitors(friendly1, friendly2),
{
    let mut monitor1 = display1_ddc_monitor();
    let mut monitor2 = display2_ddc_monitor();
    if !friendly1 {
        monitor1.friendly_name = None;
    }
    if !friendly2 {
        monitor2.friendly_name = None;
    }
    let r = vec![monitor1, monitor2];
    assert(ddc_monitors_view(r@) =~= sample_ddc_monitors(friendly1, friendly2));
    r
}

fn scenario_answer(scenario: DdcFakeScenario) -> (r: Result<Vec<DdcDiscoveredMonitor>, GetMonitorsPortError>)
    ensures
        ddc_answer_view(r) == scenario_spec(scenario),
{
    match scenario {
        DdcFakeScenario::Success => Ok(sample_pair(true, true)),
        DdcFakeScenario::FriendlyNameMissingOnDisplay1 => Ok(sample_pair(false, true)),
        DdcFakeScenario::FriendlyNameMissingOnDisplay2 => Ok(sample_pair(true, false)),
        DdcFakeScenario::FriendlyNameMissingOnBoth => Ok(sample_pair(false, false)),
        DdcFakeScenario::MonitorsNotFound => Err(GetMonitorsPortError::MonitorsNotFound),
        DdcFakeScenario::BackendUnavailable => Err(GetMonitorsPortError::BackendUnavailable),
    }
}

/// A DDC/CI back end that reports the sample monitors.
pub struct FakeDdcGetMonitorsAdapter;

impl FakeDdcGetMonitorsAdapter {
    pub fn new() -> (r: Self)
        ensures
            r == FakeDdcGetMonitorsAdapter,
    {
        Self
    }
}

impl GetDdcMonitorsPort for FakeDdcGetMonitorsAdapter {
    /// The two sample monitors, the first without a friendly name.
    open spec fn can_answer_ddc(&self, answer: Result<Seq<DdcMonitorModel>, GetMonitorsPortError>) -> bool {
        answer == Ok::<Seq<DdcMonitorModel>, GetMonitorsPortError>(sample_ddc_monitors(false, true))
    }

    /// The two sample monitors, the first reported without a friendly name.
    fn get_ddc_monitors(&self) -> (r: Result<Vec<DdcDiscoveredMonitor>, GetMonitorsPortError>)
        ensures
            ddc_answer_view(r) == Ok::<Seq<DdcMonitorModel>, GetMonitorsPortError>(
                sample_ddc_monitors(false, true),
            ),
    {
        scenario_answer(DDC_FAKE_SCENARIO)
    }
}

} // verus!
