//! The EDID back end of the monitor list: the platform's displays with
//! their EDIDs, names and text fields normalised, one entry per logical
//! display.

use vstd::prelude::*;

use crate::application::monitor::get_monitors::ports::{
    edid_answer_view, edid_monitors_view, DiscoveredEdid, EdidDiscoveredMonitor, EdidModel,
    EdidMonitorModel, GetEdidMonitorsPort, GetMonitorsPortError,
};
use crate::application::monitor::get_monitors::usecase_impl::normalize_required_string;
use crate::text::{lemma_trim_idempotent, trim};
use super::ports::{
    platform_edid_answer_view, platform_edid_view, EdidPlatformPort, EdidPlatformPortError,
    PlatformEdidMonitor,
};

verus! {

/// Lists displays with EDIDs through an EDID platform port.
pub struct EdidGetMonitorsAdapter<P> {
    platform_port: P,
}

impl<P> EdidGetMonitorsAdapter<P> {
    /// The platform port that the adapter asks.
    pub closed spec fn platform_port_spec(&self) -> P {
        self.platform_port
    }

    /// An adapter over `platform_port`; it asks nothing until it is used.
    pub fn new(platform_port: P) -> (r: Self)
        ensures
            r.platform_port_spec() == platform_port,
    {
        Self { platform_port }
    }
}

/// The logical names of a list of displays.
pub open spec fn edid_names(s: Seq<EdidMonitorModel>) -> Seq<Seq<char>> {
    s.map_values(|m: EdidMonitorModel| m.logical_name)
}

/// The EDID fields with identifier and vendor trimmed.
pub open spec fn trimmed_edid(e: EdidModel) -> EdidModel {
    EdidModel {
        identifier: trim(e.identifier),
        vendor: trim(e.vendor),
        product_id: e.product_id,
        serial: e.serial,
        week: e.week,
        year: e.year,
    }
}

/// The platform's displays with names normalised: blank logical names are
/// dropped, and of several displays with the same trimmed logical name the
/// first is kept.
pub open spec fn dedup_edid(infos: Seq<EdidMonitorModel>) -> Seq<EdidMonitorModel>
    decreases infos.len(),
{
    if infos.len() == 0 {
        Seq::empty()
    } else {
        let prev = dedup_edid(infos.drop_last());
        let x = infos.last();
        let name = trim(x.logical_name);
        if name.len() == 0 || edid_names(prev).contains(name) {
            prev
        } else {
            prev.push(EdidMonitorModel { logical_name: name, edid: trimmed_edid(x.edid) })
        }
    }
}

/// The back end's answer for the platform's answer `r`: a platform error
/// is "unavailable"; a listing with no usable display is "not found".
pub open spec fn discover_edid_spec(r: Result<Seq<EdidMonitorModel>, EdidPlatformPortError>) -> Result<
    Seq<EdidMonitorModel>,
    GetMonitorsPortError,
> {
    match r {
        Err(_) => Err(GetMonitorsPortError::BackendUnavailable),
        Ok(infos) => if infos.len() == 0 || dedup_edid(infos).len() == 0 {
            Err(GetMonitorsPortError::MonitorsNotFound)
        } else {
            Ok(dedup_edid(infos))
        },
    }
}

/// The error reported for a platform error.
pub fn map_platform_error(err: EdidPlatformPortError) -> (r: GetMonitorsPortError)
    ensures
        r == GetMonitorsPortError::BackendUnavailable,
{
    match err {
        EdidPlatformPortError::Unavailable => GetMonitorsPortError::BackendUnavailable,
    }
}

fn has_name(monitors: &Vec<EdidDiscoveredMonitor>, name: &String) -> (r: bool)
    ensures
        r == edid_names(edid_monitors_view(monitors@)).contains(name@),
{
    let ghost names = edid_names(edid_monitors_view(monitors@));
    let mut i: usize = 0;
    while i < monitors.len()
        invariant
            i <= monitors@.len(),
            names == edid_names(edid_monitors_view(monitors@)),
            forall|k: int| 0 <= k < i ==> names[k] != name@,
        decreases monitors.len() - i,
    {
        if monitors[i].logical_name == *name {
            assert(names[i as int] == name@);
            return true;
        }
        i += 1;
    }
    false
}

/// The back end's answer for the platform's answer `listing`.
pub fn discover_edid_monitors(listing: Result<Vec<PlatformEdidMonitor>, EdidPlatformPortError>) -> (r: Result<
    Vec<EdidDiscoveredMonitor>,
    GetMonitorsPortError,
>)
    ensures
        edid_answer_view(r) == discover_edid_spec(platform_edid_answer_view(listing)),
{
    let infos = match listing {
        Ok(v) => v,
        Err(e) => {
            return Err(map_platform_error(e));
        },
    };
    if infos.len() == 0 {
        return Err(GetMonitorsPortError::MonitorsNotFound);
    }
    let ghost ps = platform_edid_view(infos@);
    let mut monitors: Vec<EdidDiscoveredMonitor> = Vec::new();
    let mut i: usize = 0;
    assert(edid_monitors_view(monitors@) =~= dedup_edid(ps.take(0)));
    while i < infos.len()
        invariant
            i <= infos@.len(),
            ps == platform_edid_view(infos@),
            edid_monitors_view(monitors@) == dedup_edid(ps.take(i as int)),
        decreases infos.len() - i,
    {
        let info = &infos[i];
        assert(ps.take(i + 1).drop_last() =~= ps.take(i as int));
        assert(ps.take(i + 1).last() == info@);
        let logical_name = normalize_required_string(&info.logical_name);
        if !logical_name.as_str().is_empty() && !has_name(&monitors, &logical_name) {
            let m = EdidDiscoveredMonitor {
                logical_name,
                edid: DiscoveredEdid {
                    identifier: normalize_required_string(&info.edid.identifier),
                    vendor: normalize_required_string(&info.edid.vendor),
                    product_id: info.edid.product_id,
                    serial: info.edid.serial,
                    week: info.edid.week,
                    year: info.edid.year,
                },
            };
            let ghost before = edid_monitors_view(monitors@);
            monitors.push(m);
            assert(edid_monitors_view(monitors@) =~= before.push(m@));
        }
        i += 1;
    }
    assert(ps.take(infos.len() as int) =~= ps);
    if monitors.len() == 0 {
        return Err(GetMonitorsPortError::MonitorsNotFound);
    }
    Ok(monitors)
}

impl<P: EdidPlatformPort> GetEdidMonitorsPort for EdidGetMonitorsAdapter<P> {
    /// What [`discover_edid_monitors`] makes of a listing that the platform
    /// port can give.
    open spec fn can_answer_edid(&self, answer: Result<Seq<EdidMonitorModel>, GetMonitorsPortError>) -> bool {
        exists|listing: Result<Seq<EdidMonitorModel>, EdidPlatformPortError>|
            #[trigger] self.platform_port_spec().can_list_edid(listing) && discover_edid_spec(listing) == answer
    }

    /// The platform's displays, as [`discover_edid_monitors`] reads them.
    fn get_edid_monitors(&self) -> (r: Result<Vec<EdidDiscoveredMonitor>, GetMonitorsPortError>)
    {
        let listing = self.platform_port.list_edid_monitors();
        let ghost l = platform_edid_answer_view(listing);
        let r = discover_edid_monitors(listing);
        assert(self.platform_port_spec().can_list_edid(l) && discover_edid_spec(l) == edid_answer_view(r));
        r
    }
}

// ---------------------------------------------------------------------------
// Laws
// ---------------------------------------------------------------------------

/// The displays that the back end reports are named: every logical name
/// is non-blank, trimmed and reported once, and the EDID identifier and
/// vendor are trimmed.
pub open spec fn clean_edid_monitors(ms: Seq<EdidMonitorModel>) -> bool {
    &&& forall|i: int| 0 <= i < ms.len() ==> (#[trigger] ms[i]).logical_name.len() > 0
        && trim(ms[i].logical_name) == ms[i].logical_name
    &&& forall|i: int| 0 <= i < ms.len() ==> trim((#[trigger] ms[i]).edid.identifier) == ms[i].edid.identifier
        && trim(ms[i].edid.vendor) == ms[i].edid.vendor
    &&& forall|i: int, j: int| 0 <= i < j < ms.len() ==> ms[i].logical_name != ms[j].logical_name
}

proof fn lemma_dedup_edid_clean(infos: Seq<EdidMonitorModel>)
    ensures
        clean_edid_monitors(dedup_edid(infos)),
    decreases infos.len(),
{
    if infos.len() > 0 {
        let prev = dedup_edid(infos.drop_last());
        lemma_dedup_edid_clean(infos.drop_last());
        let x = infos.last();
        let name = trim(x.logical_name);
        lemma_trim_idempotent(x.logical_name);
        lemma_trim_idempotent(x.edid.identifier);
        lemma_trim_idempotent(x.edid.vendor);
        if !(name.len() == 0 || edid_names(prev).contains(name)) {
            let r = dedup_edid(infos);
            assert forall|i: int, j: int| 0 <= i < j < r.len() implies r[i].logical_name != r[j].logical_name by {
                if j == r.len() - 1 {
                    assert(edid_names(prev)[i] == r[i].logical_name);
                }
            }
        }
    }
}

/// What the back end reports for each platform answer: a platform error
/// is "unavailable", a listing without usable displays is "not found", and
/// otherwise the reported displays are non-empty and cleanly named.
pub proof fn law_edid_discovery_outcomes(listing: Result<Seq<EdidMonitorModel>, EdidPlatformPortError>)
    ensures
        listing is Err ==> discover_edid_spec(listing) == Err::<Seq<EdidMonitorModel>, GetMonitorsPortError>(
            GetMonitorsPortError::BackendUnavailable,
        ),
        listing matches Ok(infos) && infos.len() == 0 ==> discover_edid_spec(listing) == Err::<
            Seq<EdidMonitorModel>,
            GetMonitorsPortError,
        >(GetMonitorsPortError::MonitorsNotFound),
        discover_edid_spec(listing) matches Ok(ms) ==> ms.len() > 0 && clean_edid_monitors(ms),
{
    if let Ok(infos) = listing {
        lemma_dedup_edid_clean(infos);
    }
}


/// The entry that a platform display gives: its logical name trimmed, and
/// the EDID with its identifier and vendor trimmed.
pub open spec fn edid_entry_of(x: EdidMonitorModel) -> EdidMonitorModel {
    EdidMonitorModel {
        logical_name: trim(x.logical_name),
        edid: EdidModel {
            identifier: trim(x.edid.identifier),
            vendor: trim(x.edid.vendor),
            product_id: x.edid.product_id,
            serial: x.edid.serial,
            week: x.edid.week,
            year: x.edid.year,
        },
    }
}

proof fn lemma_dedup_edid_complete(infos: Seq<EdidMonitorModel>)
    ensures
        forall|i: int|
            0 <= i < infos.len() && trim((#[trigger] infos[i]).logical_name).len() > 0 ==> edid_names(
                dedup_edid(infos),
            ).contains(trim(infos[i].logical_name)),
        forall|j: int|
            0 <= j < dedup_edid(infos).len() ==> exists|i: int|
                0 <= i < infos.len() && (forall|h: int|
                    0 <= h < i ==> trim((#[trigger] infos[h]).logical_name) != trim(infos[i].logical_name))
                    && #[trigger] dedup_edid(infos)[j] == edid_entry_of(infos[i]),
    decreases infos.len(),
{
    if infos.len() > 0 {
        let d = infos.drop_last();
        lemma_dedup_edid_complete(d);
        let prev = dedup_edid(d);
        let x = infos.last();
        let name = trim(x.logical_name);
        let r = dedup_edid(infos);
        let n = infos.len() - 1;
        assert(x == infos[n]);
        assert forall|i: int|
            0 <= i < infos.len() && trim((#[trigger] infos[i]).logical_name).len() > 0 implies edid_names(
                r,
            ).contains(trim(infos[i].logical_name)) by {
            let t = trim(infos[i].logical_name);
            if i < n {
                assert(d[i] == infos[i]);
                let k = choose|k: int| 0 <= k < edid_names(prev).len() && edid_names(prev)[k] == t;
                assert(edid_names(r)[k] == t);
            } else if edid_names(prev).contains(name) {
                let k = choose|k: int| 0 <= k < edid_names(prev).len() && edid_names(prev)[k] == name;
                assert(edid_names(r)[k] == name);
            } else {
                assert(edid_names(r)[prev.len() as int] == name);
            }
        }
        assert forall|j: int| 0 <= j < r.len() implies exists|i: int|
            0 <= i < infos.len() && (forall|h: int|
                0 <= h < i ==> trim((#[trigger] infos[h]).logical_name) != trim(infos[i].logical_name))
                && #[trigger] r[j] == edid_entry_of(infos[i]) by {
            if j < prev.len() {
                assert(r[j] == prev[j]);
                let i = choose|i: int|
                    0 <= i < d.len() && (forall|h: int|
                        0 <= h < i ==> trim((#[trigger] d[h]).logical_name) != trim(d[i].logical_name))
                        && #[trigger] prev[j] == edid_entry_of(d[i]);
                assert(d[i] == infos[i]);
                assert forall|h: int| 0 <= h < i implies trim((#[trigger] infos[h]).logical_name) != trim(
                    infos[i].logical_name,
                ) by {
                    assert(d[h] == infos[h]);
                }
            } else {
                assert(r[j] == edid_entry_of(x));
                assert forall|h: int| 0 <= h < n implies trim((#[trigger] infos[h]).logical_name) != name by {
                    assert(d[h] == infos[h]);
                }
            }
        }
    }
}

/// Discovery drops no display that has a name: every platform display
/// whose trimmed logical name is not blank is listed under that name, and
/// every listed entry is the trimmed form of the first platform display
/// that bears its name, with that display's own EDID.
pub proof fn law_edid_discovery_complete(listing: Result<Seq<EdidMonitorModel>, EdidPlatformPortError>)
    ensures
        listing matches Ok(infos) ==> {
            &&& forall|i: int|
                0 <= i < infos.len() && trim((#[trigger] infos[i]).logical_name).len() > 0 ==> (discover_edid_spec(
                    listing,
                ) matches Ok(ms) && edid_names(ms).contains(trim(infos[i].logical_name)))
            &&& discover_edid_spec(listing) matches Ok(ms) ==> forall|j: int|
                0 <= j < ms.len() ==> exists|i: int|
                    0 <= i < infos.len() && (forall|h: int|
                        0 <= h < i ==> trim((#[trigger] infos[h]).logical_name) != trim(infos[i].logical_name))
                        && #[trigger] ms[j] == edid_entry_of(infos[i])
        },
{
    if let Ok(infos) = listing {
        lemma_dedup_edid_complete(infos);
        assert forall|i: int|
            0 <= i < infos.len() && trim((#[trigger] infos[i]).logical_name).len() > 0 implies (discover_edid_spec(
                listing,
            ) matches Ok(ms) && edid_names(ms).contains(trim(infos[i].logical_name))) by {
            assert(edid_names(dedup_edid(infos)).contains(trim(infos[i].logical_name)));
            assert(dedup_edid(infos).len() > 0);
        }
    }
}

} // verus!
