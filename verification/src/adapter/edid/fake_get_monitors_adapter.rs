//! An EDID back end that reports the sample monitors, for running the user
//! interface without hardware.

use vstd::prelude::*;

use crate::adapter::common::fake_monitor_data::{
    display1_edid_monitor, display1_edid_monitor_spec, display2_edid_monitor,
    display2_edid_monitor_spec,
};
use crate::application::monitor::get_monitors::ports::{
    edid_answer_view, edid_monitors_view, EdidDiscoveredMonitor, EdidMonitorModel,
    GetEdidMonitorsPort, GetMonitorsPortError,
};

verus! {

/// The situations the sample back end can play.
#[derive(Debug, Clone, Copy, PartialEq, Eq, Structural)]
enum EdidFakeScenario {
    Success,
    EdidMissingOnDisplay1,
    EdidMissingOnDisplay2,
    EdidMissingOnBoth,
    MonitorsNotFound,
    BackendUnavailable,
}

/// The situation that the sample back end plays.
const EDID_FAKE_SCENARIO: EdidFakeScenario = EdidFakeScenario::EdidMissingOnDisplay1;

/// The sample monitors whose EDID is present, in order.
pub open spec fn sample_edid_monitors(with1: bool, with2: bool, m1: EdidMonitorModel, m2: EdidMonitorModel) -> Seq<EdidMonitorModel> {
    (if with1 { seq![m1] } else { Seq::empty() }) + (if with2 { seq![m2] } else { Seq::empty() })
}

fn sample_list(with1: bool, with2: bool) -> (r: Vec<EdidDiscoveredMonitor>)
    ensures
        edid_monitors_view(r@) == sample_edid_monitors(with1, with2, display1_edid_monitor_spec(), display2_edid_monitor_spec()),
{
    let mut r: Vec<EdidDiscoveredMonitor> = Vec::new();
    if with1 {
        r.push(display1_edid_monitor());
    }
    if with2 {
        r.push(display2_edid_monitor());
    }
    assert(edid_monitors_view(r@) =~= sample_edid_monitors(with1, with2, display1_edid_monitor_spec(), display2_edid_monitor_spec()));
    r
}

spec fn scenario_spec(scenario: EdidFakeScenario) -> Result<Seq<EdidMonitorModel>, GetMonitorsPortError> {
    let m1 = display1_edid_monitor_spec();
    let m2 = display2_edid_monitor_spec();
    match scenario {
        EdidFakeScenario::Success => Ok(sample_edid_monitors(true, true, m1, m2)),
        EdidFakeScenario::EdidMissingOnDisplay1 => Ok(sample_edid_monitors(false, true, m1, m2)),
        EdidFakeScenario::EdidMissingOnDisplay2 => Ok(sample_edid_monitors(true, false, m1, m2)),
        EdidFakeScenario::EdidMissingOnBoth => Ok(Seq::empty()),
        EdidFakeScenario::MonitorsNotFound => Err(GetMonitorsPortError::MonitorsNotFound),
        EdidFakeScenario::BackendUnavailable => Err(GetMonitorsPortError::BackendUnavailable),
    }
}

fn scenario_answer(scenario: EdidFakeScenario) -> (r: Result<Vec<EdidDiscoveredMonitor>, GetMonitorsPortError>)
    ensures
        edid_answer_view(r) == scenario_spec(scenario),
{
    match scenario {
        EdidFakeScenario::Success => Ok(sample_list(true, true)),
        EdidFakeScenario::EdidMissingOnDisplay1 => Ok(sample_list(false, true)),
        EdidFakeScenario::EdidMissingOnDisplay2 => Ok(sample_list(true, false)),
        EdidFakeScenario::EdidMissingOnBoth => {
            let r = sample_list(false, false);
            assert(edid_monitors_view(r@) =~= Seq::<EdidMonitorModel>::empty());
            Ok(r)
        },
        EdidFakeScenario::MonitorsNotFound => Err(GetMonitorsPortError::MonitorsNotFound),
        EdidFakeScenario::BackendUnavailable => Err(GetMonitorsPortError::BackendUnavailable),
    }
}

/// An EDID back end that reports the sample monitors.
pub struct FakeEdidGetMonitorsAdapter;

impl FakeEdidGetMonitorsAdapter {
    pub fn new() -> (r: Self)
        ensures
            r == FakeEdidGetMonitorsAdapter,
    {
        Self
    }
}

impl GetEdidMonitorsPort for FakeEdidGetMonitorsAdapter {
    /// Only the second sample monitor, with its EDID.
    open spec fn can_answer_edid(&self, answer: Result<Seq<EdidMonitorModel>, GetMonitorsPortError>) -> bool {
        answer == Ok::<Seq<EdidMonitorModel>, GetMonitorsPortError>(seq![display2_edid_monitor_spec()])
    }

    /// Only the second sample monitor, with its EDID.
    fn get_edid_monitors(&self) -> (r: Result<Vec<EdidDiscoveredMonitor>, GetMonitorsPortError>)
        ensures
            edid_answer_view(r) == Ok::<Seq<EdidMonitorModel>, GetMonitorsPortError>(
                seq![display2_edid_monitor_spec()],
            ),
    {
        let r = scenario_answer(EDID_FAKE_SCENARIO);
        assert(sample_edid_monitors(false, true, display1_edid_monitor_spec(), display2_edid_monitor_spec())
            =~= seq![display2_edid_monitor_spec()]);
        r
    }
}

} // verus!
