//! A DDC/CI platform layer that lists the sample monitors, in a chosen
//! situation, for running the application without hardware.

use vstd::prelude::*;

use crate::adapter::ddc::ports::{
    platform_ddc_answer_view, platform_ddc_view, DdcPlatformPort, DdcPlatformPortError,
    PlatformDdcMonitor,
};
use crate::application::monitor::get_monitors::ports::DdcMonitorModel;
use super::fake_monitor_data::{display1_ddc_monitor, display2_ddc_monitor, platform_display1, platform_display2};

verus! {

/// The situations the sample platform layer can play.
#[derive(Debug, Clone, Copy, PartialEq, Eq, Structural)]
pub enum DdcFakeScenario {
    Success,
    FriendlyNameMissingOnDisplay1,
    FriendlyNameMissingOnDisplay2,
    FriendlyNameMissingOnBoth,
    NoMonitors,
    BackendUnavailable,
}

/// What the sample platform layer answers in each situation.
pub open spec fn fake_ddc_listing(scenario: DdcFakeScenario) -> Result<Seq<DdcMonitorModel>, DdcPlatformPortError> {
    match scenario {
        DdcFakeScenario::Success => Ok(seq![platform_display1(true), platform_display2(true)]),
        DdcFakeScenario::FriendlyNameMissingOnDisplay1 => Ok(seq![platform_display1(false), platform_display2(true)]),
        DdcFakeScenario::FriendlyNameMissingOnDisplay2 => Ok(seq![platform_display1(true), platform_display2(false)]),
        DdcFakeScenario::FriendlyNameMissingOnBoth => Ok(seq![platform_display1(false), platform_display2(false)]),
        DdcFakeScenario::NoMonitors => Ok(Seq::empty()),
        DdcFakeScenario::BackendUnavailable => Err(DdcPlatformPortError::Unavailable),
    }
}

/// A platform layer that plays one situation.
pub struct FakeDdcPlatformPort {
    scenario: DdcFakeScenario,
}

impl FakeDdcPlatformPort {
    /// The situation that this platform layer plays.
    pub closed spec fn scenario(&self) -> DdcFakeScenario {
        self.scenario
    }

    /// A platform layer that plays `scenario`.
    pub fn new(scenario: DdcFakeScenario) -> (r: Self)
        ensures
            r.scenario() == scenario,
    {
        Self { scenario }
    }
}

fn sample_pair(friendly1: bool, friendly2: bool) -> (r: Vec<PlatformDdcMonitor>)
    ensures
        platform_ddc_view(r@) == seq![platform_display1(friendly1), platform_display2(friendly2)],
{
    let mut monitor1 = display1_ddc_monitor();
    let mut monitor2 = display2_ddc_monitor();
    if !friendly1 {
        monitor1.friendly_name = None;
    }
    if !friendly2 {
        monitor2.friendly_name = None;
    }
    let r = vec![monitor1, monitor2];
    assert(platform_ddc_view(r@) =~= seq![platform_display1(friendly1), platform_display2(friendly2)]);
    r
}

impl DdcPlatformPort for FakeDdcPlatformPort {
    /// The one listing of the situation played.
    open spec fn can_list_ddc(&self, listing: Result<Seq<DdcMonitorModel>, DdcPlatformPortError>) -> bool {
        listing == fake_ddc_listing(self.scenario())
    }

    /// The sample monitors as the situation has them.
    fn list_ddc_monitors(&self) -> (r: Result<Vec<PlatformDdcMonitor>, DdcPlatformPortError>)
        ensures
            platform_ddc_answer_view(r) == fake_ddc_listing(self.scenario()),
    {
        match self.scenario {
            DdcFakeScenario::Success => Ok(sample_pair(true, true)),
            DdcFakeScenario::FriendlyNameMissingOnDisplay1 => Ok(sample_pair(false, true)),
            DdcFakeScenario::FriendlyNameMissingOnDisplay2 => Ok(sample_pair(true, false)),
            DdcFakeScenario::FriendlyNameMissingOnBoth => Ok(sample_pair(false, false)),
            DdcFakeScenario::NoMonitors => {
                let r: Vec<PlatformDdcMonitor> = Vec::new();
                assert(platform_ddc_view(r@) =~= Seq::<DdcMonitorModel>::empty());
                Ok(r)
            },
            DdcFakeScenario::BackendUnavailable => Err(DdcPlatformPortError::Unavailable),
        }
    }
}

} // verus!
