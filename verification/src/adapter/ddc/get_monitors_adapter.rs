//! The DDC/CI back end of the monitor list: the platform's physical
//! monitors, names normalised, one entry per logical display.

use vstd::prelude::*;

use crate::application::monitor::get_monitors::ports::{
    ddc_answer_view, ddc_monitors_view, DdcDiscoveredMonitor, DdcMonitorModel,
    GetDdcMonitorsPort, GetMonitorsPortError,
};
use crate::application::monitor::get_monitors::ports::EdidMonitorModel;
use crate::application::monitor::get_monitors::usecase_impl::{
    assemble_spec, identity_spec, normalize_optional, normalize_optional_string,
    normalize_required_string,
};
use crate::text::{lemma_trim_idempotent, trim};
use super::ports::{
    platform_ddc_answer_view, platform_ddc_view, DdcPlatformPort, DdcPlatformPortError,
    PlatformDdcMonitor,
};

verus! {

/// Lists monitors through a DDC/CI platform port.
pub struct DdcGetMonitorsAdapter<P> {
    platform_port: P,
}

impl<P> DdcGetMonitorsAdapter<P> {
    /// The platform port that the adapter asks.
    pub closed spec fn platform_port_spec(&self) -> P {
        self.platform_port
    }

    /// An adapter over `platform_port`; it asks nothing until it is used.
    pub fn new(platform_port: P) -> (r: Self)
        ensures
            r.platform_port_spec() == platform_port,
    {
        Self { platform_port }
    }
}

/// The logical names of a list of monitors.
pub open spec fn ddc_names(s: Seq<DdcMonitorModel>) -> Seq<Seq<char>> {
    s.map_values(|m: DdcMonitorModel| m.logical_name)
}

/// The platform's monitors with names normalised: blank logical names are
/// dropped, and of several monitors with the same trimmed logical name the
/// first is kept.
pub open spec fn dedup_ddc(infos: Seq<DdcMonitorModel>) -> Seq<DdcMonitorModel>
    decreases infos.len(),
{
    if infos.len() == 0 {
        Seq::empty()
    } else {
        let prev = dedup_ddc(infos.drop_last());
        let x = infos.last();
        let name = trim(x.logical_name);
        if name.len() == 0 || ddc_names(prev).contains(name) {
            prev
        } else {
            prev.push(DdcMonitorModel { logical_name: name, friendly_name: normalize_optional(x.friendly_name) })
        }
    }
}

/// The back end's answer for the platform's answer `r`: a platform error
/// is "unavailable"; a listing with no usable monitor is "not found".
pub open spec fn discover_ddc_spec(r: Result<Seq<DdcMonitorModel>, DdcPlatformPortError>) -> Result<
    Seq<DdcMonitorModel>,
    GetMonitorsPortError,
> {
    match r {
        Err(_) => Err(GetMonitorsPortError::BackendUnavailable),
        Ok(infos) => if infos.len() == 0 || dedup_ddc(infos).len() == 0 {
            Err(GetMonitorsPortError::MonitorsNotFound)
        } else {
            Ok(dedup_ddc(infos))
        },
    }
}

/// The error reported for a platform error.
pub fn map_platform_error(err: DdcPlatformPortError) -> (r: GetMonitorsPortError)
    ensures
        r == GetMonitorsPortError::BackendUnavailable,
{
    match err {
        DdcPlatformPortError::Unavailable => GetMonitorsPortError::BackendUnavailable,
    }
}

fn has_name(monitors: &Vec<DdcDiscoveredMonitor>, name: &String) -> (r: bool)
    ensures
        r == ddc_names(ddc_monitors_view(monitors@)).contains(name@),
{
    let ghost names = ddc_names(ddc_monitors_view(monitors@));
    let mut i: usize = 0;
    while i < monitors.len()
        invariant
            i <= monitors@.len(),
            names == ddc_names(ddc_monitors_view(monitors@)),
            forall|k: int| 0 <= k < i ==> names[k] != name@,
        decreases monitors.len() - i,
    {
        if monitors[i].logical_name == *name {
            assert(names[i as int] == name@);
            return true;
        }
        i += 1;
    }
    false
}

/// The back end's answer for the platform's answer `listing`.
pub fn discover_ddc_monitors(listing: Result<Vec<PlatformDdcMonitor>, DdcPlatformPortError>) -> (r: Result<
    Vec<DdcDiscoveredMonitor>,
    GetMonitorsPortError,
>)
    ensures
        ddc_answer_view(r) == discover_ddc_spec(platform_ddc_answer_view(listing)),
{
    let infos = match listing {
        Ok(v) => v,
        Err(e) => {
            return Err(map_platform_error(e));
        },
    };
    if infos.len() == 0 {
        return Err(GetMonitorsPortError::MonitorsNotFound);
    }
    let ghost ps = platform_ddc_view(infos@);
    let mut monitors: Vec<DdcDiscoveredMonitor> = Vec::new();
    let mut i: usize = 0;
    assert(ddc_monitors_view(monitors@) =~= dedup_ddc(ps.take(0)));
    while i < infos.len()
        invariant
            i <= infos@.len(),
            ps == platform_ddc_view(infos@),
            ddc_monitors_view(monitors@) == dedup_ddc(ps.take(i as int)),
        decreases infos.len() - i,
    {
        let info = &infos[i];
        assert(ps.take(i + 1).drop_last() =~= ps.take(i as int));
        assert(ps.take(i + 1).last() == info@);
        let logical_name = normalize_required_string(&info.logical_name);
        if !logical_name.as_str().is_empty() && !has_name(&monitors, &logical_name) {
            let friendly_name = normalize_optional_string(&info.friendly_name);
            let m = DdcDiscoveredMonitor { logical_name, friendly_name };
            let ghost before = ddc_monitors_view(monitors@);
            monitors.push(m);
            assert(ddc_monitors_view(monitors@) =~= before.push(m@));
        }
        i += 1;
    }
    assert(ps.take(infos.len() as int) =~= ps);
    if monitors.len() == 0 {
        return Err(GetMonitorsPortError::MonitorsNotFound);
    }
    Ok(monitors)
}

impl<P: DdcPlatformPort> GetDdcMonitorsPort for DdcGetMonitorsAdapter<P> {
    /// What [`discover_ddc_monitors`] makes of a listing that the platform
    /// port can give.
    open spec fn can_answer_ddc(&self, answer: Result<Seq<DdcMonitorModel>, GetMonitorsPortError>) -> bool {
        exists|listing: Result<Seq<DdcMonitorModel>, DdcPlatformPortError>|
            #[trigger] self.platform_port_spec().can_list_ddc(listing) && discover_ddc_spec(listing) == answer
    }

    /// The platform's monitors, as [`discover_ddc_monitors`] reads them.
    fn get_ddc_monitors(&self) -> (r: Result<Vec<DdcDiscoveredMonitor>, GetMonitorsPortError>)
    {
        let listing = self.platform_port.list_ddc_monitors();
        let ghost l = platform_ddc_answer_view(listing);
        let r = discover_ddc_monitors(listing);
        assert(self.platform_port_spec().can_list_ddc(l) && discover_ddc_spec(l) == ddc_answer_view(r));
        r
    }
}

// ---------------------------------------------------------------------------
// Laws
// ---------------------------------------------------------------------------

/// The monitors that the back end reports are named: every logical name
/// is non-blank, trimmed and reported once, and a friendly name, when
/// given, is non-blank and trimmed.
pub open spec fn clean_ddc_monitors(ms: Seq<DdcMonitorModel>) -> bool {
    &&& forall|i: int| 0 <= i < ms.len() ==> (#[trigger] ms[i]).logical_name.len() > 0
        && trim(ms[i].logical_name) == ms[i].logical_name
    &&& forall|i: int| 0 <= i < ms.len() ==> match (#[trigger] ms[i]).friendly_name {
        Some(f) => f.len() > 0 && trim(f) == f,
        None => true,
    }
    &&& forall|i: int, j: int| 0 <= i < j < ms.len() ==> ms[i].logical_name != ms[j].logical_name
}

proof fn lemma_dedup_ddc_clean(infos: Seq<DdcMonitorModel>)
    ensures
        clean_ddc_monitors(dedup_ddc(infos)),
    decreases infos.len(),
{
    if infos.len() > 0 {
        let prev = dedup_ddc(infos.drop_last());
        lemma_dedup_ddc_clean(infos.drop_last());
        let x = infos.last();
        let name = trim(x.logical_name);
        lemma_trim_idempotent(x.logical_name);
        if let Some(f) = x.friendly_name {
            lemma_trim_idempotent(f);
        }
        if !(name.len() == 0 || ddc_names(prev).contains(name)) {
            let r = dedup_ddc(infos);
            assert forall|i: int, j: int| 0 <= i < j < r.len() implies r[i].logical_name != r[j].logical_name by {
                if j == r.len() - 1 {
                    assert(ddc_names(prev)[i] == r[i].logical_name);
                }
            }
        }
    }
}

/// What the back end reports for each platform answer: a platform error
/// is "unavailable", a listing without usable monitors is "not found", and
/// otherwise the reported monitors are non-empty and cleanly named.
pub proof fn law_ddc_discovery_outcomes(listing: Result<Seq<DdcMonitorModel>, DdcPlatformPortError>)
    ensures
        listing is Err ==> discover_ddc_spec(listing) == Err::<Seq<DdcMonitorModel>, GetMonitorsPortError>(
            GetMonitorsPortError::BackendUnavailable,
        ),
        listing matches Ok(infos) && infos.len() == 0 ==> discover_ddc_spec(listing) == Err::<
            Seq<DdcMonitorModel>,
            GetMonitorsPortError,
        >(GetMonitorsPortError::MonitorsNotFound),
        discover_ddc_spec(listing) matches Ok(ms) ==> ms.len() > 0 && clean_ddc_monitors(ms),
{
    if let Ok(infos) = listing {
        lemma_dedup_ddc_clean(infos);
    }
}

/// The monitor list keeps the names that the back end reported: each entry
/// is named by the logical name and friendly name of its monitor, unchanged.
pub proof fn law_list_keeps_discovered_names(
    listing: Result<Seq<DdcMonitorModel>, DdcPlatformPortError>,
    edid: Result<Seq<EdidMonitorModel>, GetMonitorsPortError>,
)
    ensures
        discover_ddc_spec(listing) matches Ok(ms) ==> assemble_spec(Ok(ms), edid) matches Ok(ids) && ids.len()
            == ms.len() && forall|i: int| 0 <= i < ms.len() ==> #[trigger] ids[i].monitor_id == ms[i].logical_name
            && ids[i].friendly_name == ms[i].friendly_name,
{
    law_ddc_discovery_outcomes(listing);
    if let Ok(ms) = discover_ddc_spec(listing) {
        let es = match edid {
            Ok(es) => es,
            Err(_) => Seq::empty(),
        };
        let ids = ms.map_values(|m: DdcMonitorModel| identity_spec(m, es));
        assert forall|i: int| 0 <= i < ms.len() implies #[trigger] ids[i].monitor_id == ms[i].logical_name
            && ids[i].friendly_name == ms[i].friendly_name by {
            assert(ids[i] == identity_spec(ms[i], es));
            assert(clean_ddc_monitors(ms));
            assert(trim(ms[i].logical_name) == ms[i].logical_name);
            match ms[i].friendly_name {
                Some(f) => {
                    assert(f.len() > 0 && trim(f) == f);
                },
                None => {},
            }
        }
    }
}


/// The entry that a platform monitor gives: its logical name trimmed, and
/// its friendly name trimmed and dropped when blank.
pub open spec fn ddc_entry_of(x: DdcMonitorModel) -> DdcMonitorModel {
    DdcMonitorModel {
        logical_name: trim(x.logical_name),
        friendly_name: match x.friendly_name {
            Some(f) => if trim(f).len() > 0 {
                Some(trim(f))
            } else {
                None
            },
            None => None,
        },
    }
}

proof fn lemma_dedup_ddc_complete(infos: Seq<DdcMonitorModel>)
    ensures
        forall|i: int|
            0 <= i < infos.len() && trim((#[trigger] infos[i]).logical_name).len() > 0 ==> ddc_names(
                dedup_ddc(infos),
            ).contains(trim(infos[i].logical_name)),
        forall|j: int|
            0 <= j < dedup_ddc(infos).len() ==> exists|i: int|
                0 <= i < infos.len() && (forall|h: int|
                    0 <= h < i ==> trim((#[trigger] infos[h]).logical_name) != trim(infos[i].logical_name))
                    && #[trigger] dedup_ddc(infos)[j] == ddc_entry_of(infos[i]),
    decreases infos.len(),
{
    if infos.len() > 0 {
        let d = infos.drop_last();
        lemma_dedup_ddc_complete(d);
        let prev = dedup_ddc(d);
        let x = infos.last();
        let name = trim(x.logical_name);
        let r = dedup_ddc(infos);
        let n = infos.len() - 1;
        assert(x == infos[n]);
        assert forall|i: int|
            0 <= i < infos.len() && trim((#[trigger] infos[i]).logical_name).len() > 0 implies ddc_names(
                r,
            ).contains(trim(infos[i].logical_name)) by {
            let t = trim(infos[i].logical_name);
            if i < n {
                assert(d[i] == infos[i]);
                let k = choose|k: int| 0 <= k < ddc_names(prev).len() && ddc_names(prev)[k] == t;
                assert(ddc_names(r)[k] == t);
            } else if ddc_names(prev).contains(name) {
                let k = choose|k: int| 0 <= k < ddc_names(prev).len() && ddc_names(prev)[k] == name;
                assert(ddc_names(r)[k] == name);
            } else {
                assert(ddc_names(r)[prev.len() as int] == name);
            }
        }
        assert forall|j: int| 0 <= j < r.len() implies exists|i: int|
            0 <= i < infos.len() && (forall|h: int|
                0 <= h < i ==> trim((#[trigger] infos[h]).logical_name) != trim(infos[i].logical_name))
                && #[trigger] r[j] == ddc_entry_of(infos[i]) by {
            if j < prev.len() {
                assert(r[j] == prev[j]);
                let i = choose|i: int|
                    0 <= i < d.len() && (forall|h: int|
                        0 <= h < i ==> trim((#[trigger] d[h]).logical_name) != trim(d[i].logical_name))
                        && #[trigger] prev[j] == ddc_entry_of(d[i]);
                assert(d[i] == infos[i]);
                assert forall|h: int| 0 <= h < i implies trim((#[trigger] infos[h]).logical_name) != trim(
                    infos[i].logical_name,
                ) by {
                    assert(d[h] == infos[h]);
                }
            } else {
                assert(r[j] == ddc_entry_of(x));
                assert forall|h: int| 0 <= h < n implies trim((#[trigger] infos[h]).logical_name) != name by {
                    assert(d[h] == infos[h]);
                }
            }
        }
    }
}

/// Discovery drops no monitor that has a name: every platform monitor
/// whose trimmed logical name is not blank is listed under that name, and
/// every listed entry is the trimmed form of the first platform monitor
/// that bears its name (friendly name trimmed, and dropped when blank).
pub proof fn law_ddc_discovery_complete(listing: Result<Seq<DdcMonitorModel>, DdcPlatformPortError>)
    ensures
        listing matches Ok(infos) ==> {
            &&& forall|i: int|
                0 <= i < infos.len() && trim((#[trigger] infos[i]).logical_name).len() > 0 ==> (discover_ddc_spec(
                    listing,
                ) matches Ok(ms) && ddc_names(ms).contains(trim(infos[i].logical_name)))
            &&& discover_ddc_spec(listing) matches Ok(ms) ==> forall|j: int|
                0 <= j < ms.len() ==> exists|i: int|
                    0 <= i < infos.len() && (forall|h: int|
                        0 <= h < i ==> trim((#[trigger] infos[h]).logical_name) != trim(infos[i].logical_name))
                        && #[trigger] ms[j] == ddc_entry_of(infos[i])
        },
{
    if let Ok(infos) = listing {
        lemma_dedup_ddc_complete(infos);
        assert forall|i: int|
            0 <= i < infos.len() && trim((#[trigger] infos[i]).logical_name).len() > 0 implies (discover_ddc_spec(
                listing,
            ) matches Ok(ms) && ddc_names(ms).contains(trim(infos[i].logical_name))) by {
            assert(ddc_names(dedup_ddc(infos)).contains(trim(infos[i].logical_name)));
            assert(dedup_ddc(infos).len() > 0);
        }
    }
}

} // verus!
