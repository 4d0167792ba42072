//! The rules by which the monitor list is assembled from what the DDC/CI
//! and EDID back ends report.

use vstd::prelude::*;

use crate::assoc::{key_index, lemma_key_index, lemma_key_index_at, lemma_key_index_push, lookup};
use crate::text::{trim, trim_str};
use super::dto::{EdidSummary, GetMonitorsError, MonitorIdentity, MonitorIdentityModel};
use super::ports::{
    edid_monitors_view, opt_string_view, DdcDiscoveredMonitor, DdcMonitorModel,
    DiscoveredEdid, EdidDiscoveredMonitor, EdidModel, EdidMonitorModel, GetMonitorsPortError,
};

verus! {

// ---------------------------------------------------------------------------
// Normalising names
// ---------------------------------------------------------------------------

/// A name as shown: without surrounding white space.
pub open spec fn normalize_required(s: Seq<char>) -> Seq<char> {
    trim(s)
}

/// An optional name as shown: trimmed, and absent when nothing is left.
pub open spec fn normalize_optional(o: Option<Seq<char>>) -> Option<Seq<char>> {
    match o {
        Some(s) => if trim(s).len() > 0 {
            Some(trim(s))
        } else {
            None
        },
        None => None,
    }
}

/// `value` without surrounding white space.
pub fn normalize_required_string(value: &String) -> (r: String)
    ensures
        r@ == normalize_required(value@),
{
    trim_str(value.as_str())
}

/// `value` trimmed, and `None` when nothing is left.
pub fn normalize_optional_string(value: &Option<String>) -> (r: Option<String>)
    ensures
        opt_string_view(r) == normalize_optional(opt_string_view(*value)),
{
    match value {
        Some(v) => {
            let t = trim_str(v.as_str());
            if t.as_str().is_empty() {
                None
            } else {
                Some(t)
            }
        },
        None => None,
    }
}

// ---------------------------------------------------------------------------
// The rules
// ---------------------------------------------------------------------------

/// The EDID recorded for the logical name `key`: that of the first
/// EDID-bearing monitor whose trimmed logical name is `key`.  An empty
/// name matches nothing.
pub open spec fn edid_lookup(ms: Seq<EdidMonitorModel>, key: Seq<char>) -> Option<EdidModel>
    decreases ms.len(),
{
    if ms.len() == 0 {
        None
    } else if key.len() > 0 && trim(ms[0].logical_name) == key {
        Some(ms[0].edid)
    } else {
        edid_lookup(ms.drop_first(), key)
    }
}

/// The EDID fields as shown: identifier and vendor trimmed.
pub open spec fn summary_spec(e: EdidModel) -> EdidModel {
    EdidModel {
        identifier: trim(e.identifier),
        vendor: trim(e.vendor),
        product_id: e.product_id,
        serial: e.serial,
        week: e.week,
        year: e.year,
    }
}

/// The list entry for a DDC/CI monitor, given the EDID found for it.
pub open spec fn identity_from(m: DdcMonitorModel, edid: Option<EdidModel>) -> MonitorIdentityModel {
    MonitorIdentityModel {
        monitor_id: trim(m.logical_name),
        friendly_name: normalize_optional(m.friendly_name),
        edid: match edid {
            Some(e) => Some(summary_spec(e)),
            None => None,
        },
    }
}

/// The list entry for a DDC/CI monitor, its EDID looked up among `es` by
/// its trimmed logical name.
pub open spec fn identity_spec(m: DdcMonitorModel, es: Seq<EdidMonitorModel>) -> MonitorIdentityModel {
    identity_from(m, edid_lookup(es, trim(m.logical_name)))
}

/// The error reported for a DDC/CI back-end error.
pub open spec fn port_error_spec(e: GetMonitorsPortError) -> GetMonitorsError {
    match e {
        GetMonitorsPortError::MonitorsNotFound => GetMonitorsError::MonitorsNotFound,
        GetMonitorsPortError::BackendUnavailable => GetMonitorsError::Unavailable,
    }
}

/// The monitor list, given what the two back ends answered: a DDC/CI error
/// is the answer's error; otherwise one entry per DDC/CI monitor, in order,
/// with the EDID found for it.  An EDID error counts as no EDIDs.
pub open spec fn assemble_spec(
    ddc: Result<Seq<DdcMonitorModel>, GetMonitorsPortError>,
    edid: Result<Seq<EdidMonitorModel>, GetMonitorsPortError>,
) -> Result<Seq<MonitorIdentityModel>, GetMonitorsError> {
    match ddc {
        Err(e) => Err(port_error_spec(e)),
        Ok(ms) => {
            let es = match edid {
                Ok(es) => es,
                Err(_) => Seq::empty(),
            };
            Ok(ms.map_values(|m: DdcMonitorModel| identity_spec(m, es)))
        },
    }
}

// ---------------------------------------------------------------------------
// The EDID map
// ---------------------------------------------------------------------------

/// EDIDs by trimmed logical name, one per name.
pub type EdidMap = Vec<(String, DiscoveredEdid)>;

/// The value of an EDID map.
pub open spec fn edid_map_view(v: Seq<(String, DiscoveredEdid)>) -> Seq<(Seq<char>, EdidModel)> {
    v.map_values(|e: (String, DiscoveredEdid)| (e.0@, e.1@))
}

proof fn lemma_edid_lookup_push(ms: Seq<EdidMonitorModel>, x: EdidMonitorModel, key: Seq<char>)
    ensures
        edid_lookup(ms.push(x), key) == match edid_lookup(ms, key) {
            Some(e) => Some(e),
            None => if key.len() > 0 && trim(x.logical_name) == key {
                Some(x.edid)
            } else {
                None
            },
        },
    decreases ms.len(),
{
    if ms.len() > 0 {
        assert(ms.push(x).drop_first() =~= ms.drop_first().push(x));
        assert(ms.push(x)[0] == ms[0]);
        lemma_edid_lookup_push(ms.drop_first(), x, key);
        if key.len() > 0 && trim(ms[0].logical_name) == key {
            assert(edid_lookup(ms.push(x), key) == Some(ms[0].edid));
            assert(edid_lookup(ms, key) == Some(ms[0].edid));
        } else {
            assert(edid_lookup(ms.push(x), key) == edid_lookup(ms.drop_first().push(x), key));
            assert(edid_lookup(ms, key) == edid_lookup(ms.drop_first(), key));
        }
    } else {
        assert(ms.push(x).drop_first() =~= Seq::<EdidMonitorModel>::empty());
        assert(ms.push(x)[0] == x);
        assert(edid_lookup(ms.push(x).drop_first(), key) is None);
        assert(edid_lookup(ms, key) is None);
    }
}

fn copy_edid(e: &DiscoveredEdid) -> (r: DiscoveredEdid)
    ensures
        r@ == e@,
{
    DiscoveredEdid {
        identifier: e.identifier.clone(),
        vendor: e.vendor.clone(),
        product_id: e.product_id,
        serial: e.serial,
        week: e.week,
        year: e.year,
    }
}

fn find_edid(map: &EdidMap, key: &String) -> (r: Option<usize>)
    ensures
        match r {
            Some(j) => j == key_index(edid_map_view(map@), key@) && j < map@.len(),
            None => key_index(edid_map_view(map@), key@) == -1,
        },
{
    let ghost v = edid_map_view(map@);
    let mut j: usize = 0;
    while j < map.len()
        invariant
            j <= map@.len(),
            v == edid_map_view(map@),
            forall|jj: int| 0 <= jj < j ==> v[jj].0 != key@,
        decreases map.len() - j,
    {
        if map[j].0 == *key {
            proof {
                lemma_key_index_at(v, key@, j as int);
            }
            return Some(j);
        }
        j += 1;
    }
    proof {
        lemma_key_index(v, key@);
    }
    None
}

/// EDIDs by trimmed logical name: for each name the first monitor that
/// carries it; monitors whose name is blank are left out.
pub fn build_edid_map(edid_monitors: &Vec<EdidDiscoveredMonitor>) -> (r: EdidMap)
    ensures
        forall|k: Seq<char>| #[trigger] lookup(edid_map_view(r@), k) == edid_lookup(
            edid_monitors_view(edid_monitors@),
            k,
        ),
{
    let ghost ms = edid_monitors_view(edid_monitors@);
    let mut map: EdidMap = Vec::new();
    let mut i: usize = 0;
    assert forall|k: Seq<char>| #[trigger] lookup(edid_map_view(map@), k) == edid_lookup(ms.take(0), k) by {
        assert(edid_map_view(map@) =~= Seq::<(Seq<char>, EdidModel)>::empty());
        assert(ms.take(0) =~= Seq::<EdidMonitorModel>::empty());
    }
    while i < edid_monitors.len()
        invariant
            i <= edid_monitors@.len(),
            ms == edid_monitors_view(edid_monitors@),
            forall|k: Seq<char>| #[trigger] lookup(edid_map_view(map@), k) == edid_lookup(ms.take(i as int), k),
        decreases edid_monitors.len() - i,
    {
        let monitor = &edid_monitors[i];
        let ghost x = ms[i as int];
        assert(ms.take(i + 1) =~= ms.take(i as int).push(x));
        let logical_name = normalize_required_string(&monitor.logical_name);
        assert(trim(x.logical_name) == logical_name@);
        let ghost before = edid_map_view(map@);
        if logical_name.as_str().is_empty() {
            assert forall|k: Seq<char>| #[trigger] lookup(edid_map_view(map@), k) == edid_lookup(
                ms.take(i + 1),
                k,
            ) by {
                lemma_edid_lookup_push(ms.take(i as int), x, k);
            }
        } else {
            match find_edid(&map, &logical_name) {
                Some(j) => {
                    assert(lookup(before, logical_name@) is Some);
                    assert forall|k: Seq<char>| #[trigger] lookup(edid_map_view(map@), k) == edid_lookup(
                        ms.take(i + 1),
                        k,
                    ) by {
                        lemma_edid_lookup_push(ms.take(i as int), x, k);
                        if k == logical_name@ {
                            assert(lookup(before, k) is Some);
                        }
                    }
                },
                None => {
                    let edid = copy_edid(&monitor.edid);
                    let ghost entry = (logical_name@, edid@);
                    assert(x.edid == edid@);
                    assert(lookup(before, logical_name@) is None);
                    map.push((logical_name, edid));
                    assert(edid_map_view(map@) =~= before.push(entry));
                    assert forall|k: Seq<char>| #[trigger] lookup(edid_map_view(map@), k) == edid_lookup(
                        ms.take(i + 1),
                        k,
                    ) by {
                        lemma_edid_lookup_push(ms.take(i as int), x, k);
                        lemma_key_index_push(before, entry, k);
                        lemma_key_index(before, k);
                        assert(lookup(before, k) == edid_lookup(ms.take(i as int), k));
                        if key_index(before, k) >= 0 {
                            assert(before.push(entry)[key_index(before, k)] == before[key_index(before, k)]);
                        }
                    }
                },
            }
        }
        i += 1;
    }
    assert(ms.take(edid_monitors.len() as int) =~= ms);
    map
}

// ---------------------------------------------------------------------------
// Entries and errors
// ---------------------------------------------------------------------------

/// The EDID fields as shown: identifier and vendor trimmed.
pub fn map_edid_summary(edid: &DiscoveredEdid) -> (r: EdidSummary)
    ensures
        r@ == summary_spec(edid@),
{
    EdidSummary {
        identifier: normalize_required_string(&edid.identifier),
        vendor: normalize_required_string(&edid.vendor),
        product_id: edid.product_id,
        serial: edid.serial,
        week: edid.week,
        year: edid.year,
    }
}

/// The list entry for a DDC/CI monitor, with the EDID that `edid_map`
/// records under its trimmed logical name.
pub fn map_monitor_identity(monitor: &DdcDiscoveredMonitor, edid_map: &EdidMap) -> (r: MonitorIdentity)
    ensures
        r@ == identity_from(
            monitor@,
            lookup(edid_map_view(edid_map@), trim(monitor@.logical_name)),
        ),
{
    let monitor_id = normalize_required_string(&monitor.logical_name);
    let friendly_name = normalize_optional_string(&monitor.friendly_name);
    let edid = match find_edid(edid_map, &monitor_id) {
        Some(j) => Some(map_edid_summary(&edid_map[j].1)),
        None => None,
    };
    MonitorIdentity { monitor_id, friendly_name, edid }
}

/// The error reported for a DDC/CI back-end error.
pub fn map_port_error(err: GetMonitorsPortError) -> (r: GetMonitorsError)
    ensures
        r == port_error_spec(err),
{
    match err {
        GetMonitorsPortError::MonitorsNotFound => GetMonitorsError::MonitorsNotFound,
        GetMonitorsPortError::BackendUnavailable => GetMonitorsError::Unavailable,
    }
}

} // verus!
