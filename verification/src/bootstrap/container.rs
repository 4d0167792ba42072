//! The application's set of use cases, and its wiring to the sample
//! platform layers.

use vstd::prelude::*;

use crate::adapter::ddc::get_monitors_adapter::{ddc_names, dedup_ddc, discover_ddc_spec, DdcGetMonitorsAdapter};
use crate::adapter::ddc::ports::DdcPlatformPortError;
use crate::adapter::edid::get_monitors_adapter::{
    dedup_edid, discover_edid_spec, edid_names, trimmed_edid, EdidGetMonitorsAdapter,
};
use crate::adapter::edid::ports::EdidPlatformPortError;
use crate::application::monitor::get_monitors::dto::MonitorIdentityModel;
use crate::application::monitor::get_monitors::ports::{
    DdcMonitorModel, EdidMonitorModel, GetDdcMonitorsPort, GetEdidMonitorsPort, GetMonitorsPortError,
};
use crate::application::monitor::get_monitors::usecase_impl::{assemble_spec, edid_lookup, identity_spec, summary_spec};
use crate::application::monitor::get_monitors::{GetMonitorsError, GetMonitorsUseCase};
use crate::infra::fake::ddc::fake_monitor_data::{
    platform_display1, platform_display2, DISPLAY1_LOGICAL_NAME, DISPLAY2_FRIENDLY_NAME, DISPLAY2_LOGICAL_NAME,
};
use crate::infra::fake::ddc::fake_port::{DdcFakeScenario, FakeDdcPlatformPort};
use crate::infra::fake::edid::fake_monitor_data::platform_edid_display2;
use crate::infra::fake::edid::fake_port::{EdidFakeScenario, FakeEdidPlatformPort};
use crate::text::{is_white_space, lemma_trimmed_is_fixed, trim};

verus! {

/// The use cases that the user interface can run, over the DDC/CI back end
/// `D` and the EDID back end `E`.
pub struct AppContainer<D, E> {
    /// Lists the monitors.
    get_monitors_use_case: GetMonitorsUseCase<D, E>,
}

impl<D, E> AppContainer<D, E> {
    /// A container holding the given use case.
    pub fn new(get_monitors_use_case: GetMonitorsUseCase<D, E>) -> (r: Self)
        ensures
            r.get_monitors_use_case_spec() == get_monitors_use_case,
    {
        Self { get_monitors_use_case }
    }

    /// The monitor-list use case held.
    pub closed spec fn get_monitors_use_case_spec(&self) -> GetMonitorsUseCase<D, E> {
        self.get_monitors_use_case
    }

    /// The monitor-list use case, for the user interface's commands.
    pub fn get_monitors_use_case(&self) -> (r: &GetMonitorsUseCase<D, E>)
        ensures
            *r == self.get_monitors_use_case_spec(),
    {
        &self.get_monitors_use_case
    }
}

/// The container wired to the sample platform layers.
pub type FakeAppContainer = AppContainer<
    DdcGetMonitorsAdapter<FakeDdcPlatformPort>,
    EdidGetMonitorsAdapter<FakeEdidPlatformPort>,
>;

/// The container wired to the sample platform layers: the DDC/CI back end
/// reads a sample layer whose first monitor reports no friendly name, and
/// the EDID back end reads a sample layer with no EDID for the first
/// monitor.
pub fn build_fake_app_container() -> (r: FakeAppContainer)
    ensures
        r.get_monitors_use_case_spec().ddc_port_spec().platform_port_spec().scenario()
            == DdcFakeScenario::FriendlyNameMissingOnDisplay1,
        r.get_monitors_use_case_spec().edid_port_spec().platform_port_spec().scenario()
            == EdidFakeScenario::EdidMissingOnDisplay1,
{
    let ddc_platform_port = FakeDdcPlatformPort::new(DdcFakeScenario::FriendlyNameMissingOnDisplay1);
    let edid_platform_port = FakeEdidPlatformPort::new(EdidFakeScenario::EdidMissingOnDisplay1);
    let get_ddc_monitors_port = DdcGetMonitorsAdapter::new(ddc_platform_port);
    let get_edid_monitors_port = EdidGetMonitorsAdapter::new(edid_platform_port);
    let get_monitors_use_case = GetMonitorsUseCase::new(get_ddc_monitors_port, get_edid_monitors_port);
    AppContainer::new(get_monitors_use_case)
}


/// The monitor list of the sample container: the first sample monitor
/// with neither friendly name nor EDID, then the second with both.
pub open spec fn sample_listing() -> Result<Seq<MonitorIdentityModel>, GetMonitorsError> {
    Ok(
        seq![
            MonitorIdentityModel { monitor_id: DISPLAY1_LOGICAL_NAME@, friendly_name: None, edid: None },
            MonitorIdentityModel {
                monitor_id: DISPLAY2_LOGICAL_NAME@,
                friendly_name: Some(DISPLAY2_FRIENDLY_NAME@),
                edid: Some(platform_edid_display2().edid),
            },
        ],
    )
}

proof fn lemma_sample_texts_trimmed()
    ensures
        trim(DISPLAY1_LOGICAL_NAME@) == DISPLAY1_LOGICAL_NAME@,
        trim(DISPLAY2_LOGICAL_NAME@) == DISPLAY2_LOGICAL_NAME@,
        trim(DISPLAY2_FRIENDLY_NAME@) == DISPLAY2_FRIENDLY_NAME@,
        trim(platform_edid_display2().edid.identifier) == platform_edid_display2().edid.identifier,
        trim(platform_edid_display2().edid.vendor) == platform_edid_display2().edid.vendor,
        DISPLAY1_LOGICAL_NAME@ != DISPLAY2_LOGICAL_NAME@,
        DISPLAY1_LOGICAL_NAME@.len() > 0,
        DISPLAY2_LOGICAL_NAME@.len() > 0,
        DISPLAY2_FRIENDLY_NAME@.len() > 0,
{
    reveal_strlit("\\\\.\\DISPLAY1");
    reveal_strlit("\\\\.\\DISPLAY2");
    reveal_strlit("LG ULTRAWIDE");
    reveal_strlit("GSM-4C2D-2023W09-87654321");
    reveal_strlit("GSM");
    assert(!is_white_space('\\'));
    assert(!is_white_space('1'));
    assert(!is_white_space('2'));
    assert(!is_white_space('L'));
    assert(!is_white_space('E'));
    assert(!is_white_space('G'));
    assert(!is_white_space('M'));
    lemma_trimmed_is_fixed(DISPLAY1_LOGICAL_NAME@);
    lemma_trimmed_is_fixed(DISPLAY2_LOGICAL_NAME@);
    lemma_trimmed_is_fixed(DISPLAY2_FRIENDLY_NAME@);
    lemma_trimmed_is_fixed(platform_edid_display2().edid.identifier);
    lemma_trimmed_is_fixed(platform_edid_display2().edid.vendor);
    assert(DISPLAY1_LOGICAL_NAME@[11] != DISPLAY2_LOGICAL_NAME@[11]);
}

/// The sample container lists [`sample_listing`]: its use case answers
/// what the answers of its back ends assemble to, and every pair of
/// answers that those back ends can give assembles to that list.
pub proof fn law_sample_container_listing(
    c: FakeAppContainer,
    ddc: Result<Seq<DdcMonitorModel>, GetMonitorsPortError>,
    edid: Result<Seq<EdidMonitorModel>, GetMonitorsPortError>,
)
    requires
        c.get_monitors_use_case_spec().ddc_port_spec().platform_port_spec().scenario()
            == DdcFakeScenario::FriendlyNameMissingOnDisplay1,
        c.get_monitors_use_case_spec().edid_port_spec().platform_port_spec().scenario()
            == EdidFakeScenario::EdidMissingOnDisplay1,
        c.get_monitors_use_case_spec().ddc_port_spec().can_answer_ddc(ddc),
        ddc is Ok ==> c.get_monitors_use_case_spec().edid_port_spec().can_answer_edid(edid),
    ensures
        assemble_spec(ddc, edid) == sample_listing(),
{
    lemma_sample_texts_trimmed();
    let d1 = platform_display1(false);
    let d2 = platform_display2(true);
    let listing = Ok::<Seq<DdcMonitorModel>, DdcPlatformPortError>(seq![d1, d2]);
    assert(seq![d1, d2].drop_last() =~= seq![d1]);
    assert(seq![d1].drop_last() =~= Seq::<DdcMonitorModel>::empty());
    let ms = dedup_ddc(seq![d1, d2]);
    assert(dedup_ddc(Seq::<DdcMonitorModel>::empty()) == Seq::<DdcMonitorModel>::empty());
    assert(ddc_names(Seq::<DdcMonitorModel>::empty()) =~= Seq::<Seq<char>>::empty());
    assert(trim(d1.logical_name).len() > 0);
    assert(dedup_ddc(seq![d1]) =~= seq![d1]);
    assert(ms =~= seq![d1, d2]);
    assert(ddc == discover_ddc_spec(listing));
    let e2 = platform_edid_display2();
    assert(seq![e2].drop_last() =~= Seq::<EdidMonitorModel>::empty());
    assert(dedup_edid(Seq::<EdidMonitorModel>::empty()) == Seq::<EdidMonitorModel>::empty());
    assert(edid_names(Seq::<EdidMonitorModel>::empty()) =~= Seq::<Seq<char>>::empty());
    assert(trimmed_edid(e2.edid) == e2.edid);
    let es = dedup_edid(seq![e2]);
    assert(es =~= seq![e2]);
    assert(edid == discover_edid_spec(Ok::<Seq<EdidMonitorModel>, EdidPlatformPortError>(seq![e2])));
    assert(seq![e2].drop_first() =~= Seq::<EdidMonitorModel>::empty());
    assert(edid_lookup(Seq::<EdidMonitorModel>::empty(), DISPLAY1_LOGICAL_NAME@) is None);
    assert(seq![e2][0].logical_name == DISPLAY2_LOGICAL_NAME@);
    assert(edid_lookup(seq![e2], DISPLAY1_LOGICAL_NAME@) is None);
    assert(edid_lookup(seq![e2], DISPLAY2_LOGICAL_NAME@) == Some(e2.edid));
    assert(summary_spec(e2.edid) == e2.edid);
    let r = assemble_spec(ddc, edid);
    assert(r is Ok);
    assert(r->Ok_0[0] == identity_spec(d1, seq![e2]));
    assert(r->Ok_0[1] == identity_spec(d2, seq![e2]));
    assert(r->Ok_0 =~= sample_listing()->Ok_0);
}

} // verus!
