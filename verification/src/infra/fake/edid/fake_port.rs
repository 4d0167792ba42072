//! An EDID platform layer that lists the sample displays, in a chosen
//! situation, for running the application without hardware.

use vstd::prelude::*;

use crate::adapter::edid::ports::{
    platform_edid_answer_view, platform_edid_view, EdidPlatformPort, EdidPlatformPortError,
    PlatformEdidMonitor,
};
use crate::application::monitor::get_monitors::ports::EdidMonitorModel;
use super::fake_monitor_data::{
    display1_edid_monitor, display2_edid_monitor, platform_edid_display1, platform_edid_display2,
};

verus! {

/// The situations the sample platform layer can play.
#[derive(Debug, Clone, Copy, PartialEq, Eq, Structural)]
pub enum EdidFakeScenario {
    Success,
    EdidMissingOnDisplay1,
    EdidMissingOnDisplay2,
    EdidMissingOnBoth,
    NoMonitors,
    BackendUnavailable,
}

/// What the sample platform layer answers in each situation.
pub open spec fn fake_edid_listing(scenario: EdidFakeScenario) -> Result<Seq<EdidMonitorModel>, EdidPlatformPortError> {
    match scenario {
        EdidFakeScenario::Success => Ok(seq![platform_edid_display1(), platform_edid_display2()]),
        EdidFakeScenario::EdidMissingOnDisplay1 => Ok(seq![platform_edid_display2()]),
        EdidFakeScenario::EdidMissingOnDisplay2 => Ok(seq![platform_edid_display1()]),
        EdidFakeScenario::EdidMissingOnBoth => Ok(Seq::empty()),
        EdidFakeScenario::NoMonitors => Ok(Seq::empty()),
        EdidFakeScenario::BackendUnavailable => Err(EdidPlatformPortError::Unavailable),
    }
}

/// A platform layer that plays one situation.
pub struct FakeEdidPlatformPort {
    scenario: EdidFakeScenario,
}

impl FakeEdidPlatformPort {
    /// The situation that this platform layer plays.
    pub closed spec fn scenario(&self) -> EdidFakeScenario {
        self.scenario
    }

    /// A platform layer that plays `scenario`.
    pub fn new(scenario: EdidFakeScenario) -> (r: Self)
        ensures
            r.scenario() == scenario,
    {
        Self { scenario }
    }
}

impl EdidPlatformPort for FakeEdidPlatformPort {
    /// The one listing of the situation played.
    open spec fn can_list_edid(&self, listing: Result<Seq<EdidMonitorModel>, EdidPlatformPortError>) -> bool {
        listing == fake_edid_listing(self.scenario())
    }

    /// The sample displays as the situation has them.
    fn list_edid_monitors(&self) -> (r: Result<Vec<PlatformEdidMonitor>, EdidPlatformPortError>)
        ensures
            platform_edid_answer_view(r) == fake_edid_listing(self.scenario()),
    {
        let mut v: Vec<PlatformEdidMonitor> = Vec::new();
        match self.scenario {
            EdidFakeScenario::Success => {
                v.push(display1_edid_monitor());
                v.push(display2_edid_monitor());
            },
            EdidFakeScenario::EdidMissingOnDisplay1 => {
                v.push(display2_edid_monitor());
            },
            EdidFakeScenario::EdidMissingOnDisplay2 => {
                v.push(display1_edid_monitor());
            },
            EdidFakeScenario::EdidMissingOnBoth => {},
            EdidFakeScenario::NoMonitors => {},
            EdidFakeScenario::BackendUnavailable => {
                return Err(EdidPlatformPortError::Unavailable);
            },
        }
        let ghost expected = fake_edid_listing(self.scenario())->Ok_0;
        assert(platform_edid_view(v@) =~= expected);
        Ok(v)
    }
}

} // verus!
