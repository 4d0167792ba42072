//! The monitor-list use case: asks the DDC/CI back end for monitors, the
//! EDID back end for EDIDs, and puts the two together.

use vstd::prelude::*;

use crate::assoc::lookup;
use crate::text::trim;
use super::dto::{
    identities_view, response_view, GetMonitorsError, GetMonitorsRequest, GetMonitorsResponse,
    MonitorIdentity, MonitorIdentityModel,
};
use super::ports::{
    ddc_answer_view, ddc_monitors_view, edid_answer_view, edid_monitors_view, DdcDiscoveredMonitor,
    DdcMonitorModel,
    EdidDiscoveredMonitor, EdidMonitorModel, GetDdcMonitorsPort, GetEdidMonitorsPort,
    GetMonitorsPortError,
};
use super::usecase_impl::{
    assemble_spec, build_edid_map, edid_lookup, edid_map_view, identity_spec, map_monitor_identity,
    map_port_error, port_error_spec,
};

verus! {

/// Assembles the monitor list from the answers of the two back ends.
pub struct GetMonitorsUseCase<D, E> {
    ddc_port: D,
    edid_port: E,
}

/// The monitor list for the answers `ddc` and `edid` of the two back ends:
/// a DDC/CI error is reported as the list's error; otherwise there is one
/// entry per DDC/CI monitor, in order, carrying the EDID of the first
/// EDID-bearing monitor with the same trimmed logical name.  When the EDID
/// back end fails, the list is given without EDIDs.
pub fn assemble_monitors(
    ddc: Result<Vec<DdcDiscoveredMonitor>, GetMonitorsPortError>,
    edid: Result<Vec<EdidDiscoveredMonitor>, GetMonitorsPortError>,
) -> (r: Result<GetMonitorsResponse, GetMonitorsError>)
    ensures
        response_view(r) == assemble_spec(ddc_answer_view(ddc), edid_answer_view(edid)),
{
    let ddc_monitors = match ddc {
        Ok(v) => v,
        Err(e) => {
            return Err(map_port_error(e));
        },
    };
    let edid_monitors = match edid {
        Ok(v) => v,
        Err(_) => Vec::new(),
    };
    let ghost es = edid_monitors_view(edid_monitors@);
    let ghost ms = ddc_monitors_view(ddc_monitors@);
    assert(edid_answer_view(edid) matches Ok(x) ==> x == es);
    assert(edid_answer_view(edid) is Err ==> es =~= Seq::<EdidMonitorModel>::empty());
    let edid_map = build_edid_map(&edid_monitors);
    let mut monitors: Vec<MonitorIdentity> = Vec::new();
    let mut i: usize = 0;
    while i < ddc_monitors.len()
        invariant
            i <= ddc_monitors@.len(),
            ms == ddc_monitors_view(ddc_monitors@),
            identities_view(monitors@) == ms.take(i as int).map_values(
                |m: DdcMonitorModel| identity_spec(m, es),
            ),
            forall|k: Seq<char>| #[trigger] lookup(edid_map_view(edid_map@), k) == edid_lookup(es, k),
        decreases ddc_monitors.len() - i,
    {
        let entry = map_monitor_identity(&ddc_monitors[i], &edid_map);
        let ghost before = identities_view(monitors@);
        monitors.push(entry);
        i += 1;
        assert(identities_view(monitors@) =~= ms.take(i as int).map_values(
            |m: DdcMonitorModel| identity_spec(m, es),
        )) by {
            assert(identities_view(monitors@) =~= before.push(entry@));
            assert(ms[i - 1] == ddc_monitors@[i - 1]@);
        }
    }
    assert(ms.take(ddc_monitors.len() as int) =~= ms);
    Ok(GetMonitorsResponse { monitors })
}

impl<D, E> GetMonitorsUseCase<D, E> {
    /// The DDC/CI back end that the use case asks.
    pub closed spec fn ddc_port_spec(&self) -> D {
        self.ddc_port
    }

    /// The EDID back end that the use case asks.
    pub closed spec fn edid_port_spec(&self) -> E {
        self.edid_port
    }

    /// A use case that asks `ddc_port` and `edid_port`, and nothing else;
    /// neither is asked until the use case runs.
    pub fn new(ddc_port: D, edid_port: E) -> (r: Self)
        ensures
            r.ddc_port_spec() == ddc_port,
            r.edid_port_spec() == edid_port,
    {
        Self { ddc_port, edid_port }
    }
}

impl<D: GetDdcMonitorsPort, E: GetEdidMonitorsPort> GetMonitorsUseCase<D, E> {

    /// The monitor list: the DDC/CI back end is asked first, and its error,
    /// if any, is the answer (the EDID back end is then not asked);
    /// otherwise the EDID back end is asked and the list is assembled as
    /// [`assemble_monitors`] says.
    pub fn execute(&self, _req: GetMonitorsRequest) -> (r: Result<GetMonitorsResponse, GetMonitorsError>)
        ensures
            exists|
                ddc: Result<Seq<DdcMonitorModel>, GetMonitorsPortError>,
                edid: Result<Seq<EdidMonitorModel>, GetMonitorsPortError>,
            |
                #![trigger assemble_spec(ddc, edid)]
                self.ddc_port_spec().can_answer_ddc(ddc) && (ddc is Ok ==> self.edid_port_spec().can_answer_edid(
                    edid,
                )) && assemble_spec(ddc, edid) == response_view(r),
    {
        let ddc = self.ddc_port.get_ddc_monitors();
        match ddc {
            Err(e) => {
                let r = Err(map_port_error(e));
                assert(self.ddc_port_spec().can_answer_ddc(Err(e)));
                assert(assemble_spec(Err(e), Ok(Seq::empty())) == response_view(r));
                r
            },
            Ok(v) => {
                let edid = self.edid_port.get_edid_monitors();
                let ghost d = ddc_answer_view(Ok::<Vec<DdcDiscoveredMonitor>, GetMonitorsPortError>(v));
                let ghost e = edid_answer_view(edid);
                let r = assemble_monitors(Ok(v), edid);
                assert(self.ddc_port_spec().can_answer_ddc(d));
                assert(self.edid_port_spec().can_answer_edid(e));
                assert(assemble_spec(d, e) == response_view(r));
                r
            },
        }
    }
}

// ---------------------------------------------------------------------------
// Laws
// ---------------------------------------------------------------------------

/// When the EDID back end fails, the list is the one given for no EDIDs
/// at all.
pub proof fn law_edid_failure_counts_as_no_edids(
    ddc: Result<Seq<DdcMonitorModel>, GetMonitorsPortError>,
    err: GetMonitorsPortError,
)
    ensures
        assemble_spec(ddc, Err(err)) == assemble_spec(ddc, Ok(Seq::empty())),
{
}

/// A DDC/CI back-end error is the answer, whatever the EDID back end says:
/// "not found" stays "not found", "unavailable" stays "unavailable".
pub proof fn law_ddc_error_is_the_answer(
    err: GetMonitorsPortError,
    edid: Result<Seq<EdidMonitorModel>, GetMonitorsPortError>,
)
    ensures
        assemble_spec(Err(err), edid) == Err::<Seq<MonitorIdentityModel>, GetMonitorsError>(
            port_error_spec(err),
        ),
        err == GetMonitorsPortError::MonitorsNotFound ==> port_error_spec(err)
            == GetMonitorsError::MonitorsNotFound,
        err == GetMonitorsPortError::BackendUnavailable ==> port_error_spec(err)
            == GetMonitorsError::Unavailable,
{
}

/// Each DDC/CI monitor gives exactly one entry, in the same order, named
/// by its trimmed logical name.
pub proof fn law_one_entry_per_ddc_monitor(
    ms: Seq<DdcMonitorModel>,
    edid: Result<Seq<EdidMonitorModel>, GetMonitorsPortError>,
)
    ensures
        assemble_spec(Ok(ms), edid) matches Ok(ids) && ids.len() == ms.len() && forall|i: int|
            0 <= i < ms.len() ==> #[trigger] ids[i].monitor_id == trim(ms[i].logical_name),
{
}

/// A DDC/CI monitor is shown with an EDID exactly when an EDID-bearing
/// monitor has the same non-empty trimmed logical name.
pub proof fn law_edid_found_by_name(es: Seq<EdidMonitorModel>, name: Seq<char>)
    ensures
        edid_lookup(es, name) is Some <==> (name.len() > 0 && exists|j: int|
            0 <= j < es.len() && trim(#[trigger] es[j].logical_name) == name),
    decreases es.len(),
{
    if es.len() > 0 {
        law_edid_found_by_name(es.drop_first(), name);
        if name.len() > 0 && exists|j: int| 0 <= j < es.len() && trim(#[trigger] es[j].logical_name) == name {
            let j = choose|j: int| 0 <= j < es.len() && trim(#[trigger] es[j].logical_name) == name;
            if j > 0 {
                assert(es.drop_first()[j - 1] == es[j]);
            }
        }
        if edid_lookup(es.drop_first(), name) is Some {
            let j = choose|j: int| 0 <= j < es.len() - 1 && trim(#[trigger] es.drop_first()[j].logical_name) == name;
            assert(es[j + 1] == es.drop_first()[j]);
        }
    }
}

} // verus!
