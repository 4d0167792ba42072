//! Reading and writing VCP features across the physical monitors behind
//! one display.
//!
//! A display may stand for several physical monitors.  A VCP code is read
//! from the first physical monitor that answers, and written to every
//! physical monitor; the per-monitor calls are made by the caller's
//! `read` and `write` functions, which report failure with the operating
//! system's error.

use vstd::prelude::*;
use std::collections::{HashMap, HashSet};

use super::caps_parse::{no_duplicates, unique, unique_keep_order};
use crate::text::{hex_upper_digit, hex_upper_digit_char, push_char};

verus! {

broadcast use vstd::std_specs::hash::group_hash_axioms;

/// The current and maximum value of one VCP code.
#[derive(Debug, Clone, Copy, PartialEq, Eq, Structural)]
pub struct VcpFeature {
    pub vcp_code: u8,
    pub current: u32,
    pub maximum: u32,
}

/// A read of `code` from physical monitor `pm` can fail: an error is an
/// outcome that `read` allows.
pub open spec fn read_failed<E, F: Fn(usize, u8) -> Result<(u32, u32), E>>(read: F, pm: usize, code: u8) -> bool {
    exists|e: E| call_ensures(read, (pm, code), Err(e))
}

/// Physical monitor `pm`, one of `0..pm_count`, can answer a read of
/// `code` with `v`, and a read from each physical monitor before it can
/// fail: the outcome of trying them in order.
pub open spec fn first_answer<E, F: Fn(usize, u8) -> Result<(u32, u32), E>>(
    read: F,
    pm_count: usize,
    code: u8,
    pm: usize,
    v: (u32, u32),
) -> bool {
    &&& pm < pm_count
    &&& call_ensures(read, (pm, code), Ok::<(u32, u32), E>(v))
    &&& forall|p: usize| p < pm ==> #[trigger] read_failed(read, p, code)
}

/// Trying the physical monitors `0..pm_count` in order, the first answer
/// to a read of `code` can be `v`.
pub open spec fn answered<E, F: Fn(usize, u8) -> Result<(u32, u32), E>>(
    read: F,
    pm_count: usize,
    code: u8,
    v: (u32, u32),
) -> bool {
    exists|pm: usize| #[trigger] first_answer(read, pm_count, code, pm, v)
}

/// A read of `code` can fail on each of the physical monitors
/// `0..pm_count`.
pub open spec fn no_answer<E, F: Fn(usize, u8) -> Result<(u32, u32), E>>(read: F, pm_count: usize, code: u8) -> bool {
    forall|p: usize| p < pm_count ==> #[trigger] read_failed(read, p, code)
}

/// Reads `code` from the physical monitors `0..pm_count` in turn and
/// returns the first answer; when none answers, the error of the last
/// attempt.
pub fn read_vcp_feature<E, F: Fn(usize, u8) -> Result<(u32, u32), E>>(
    pm_count: usize,
    code: u8,
    read: F,
) -> (r: Result<(u32, u32), Option<E>>)
    requires
        forall|pm: usize, c: u8| read.requires((pm, c)),
    ensures
        r matches Ok(v) ==> answered(read, pm_count, code, v),
        r matches Err(last) ==> no_answer(read, pm_count, code) && (last is None <==> pm_count == 0),
        r matches Err(Some(e)) ==> call_ensures(read, ((pm_count - 1) as usize, code), Err::<(u32, u32), E>(e)),
{
    let mut last: Option<E> = None;
    let mut pm: usize = 0;
    while pm < pm_count
        invariant
            pm <= pm_count,
            forall|p: usize, c: u8| read.requires((p, c)),
            forall|p: usize| p < pm ==> #[trigger] read_failed(read, p, code),
            last is None <==> pm == 0,
            last matches Some(e) ==> call_ensures(read, ((pm - 1) as usize, code), Err::<(u32, u32), E>(e)),
        decreases pm_count - pm,
    {
        let answer = read(pm, code);
        match answer {
            Ok(v) => {
                assert(answer == Ok::<(u32, u32), E>(v));
                assert(first_answer(read, pm_count, code, pm, v));
                assert(answered(read, pm_count, code, v));
                return Ok(v);
            },
            Err(e) => {
                assert(read_failed(read, pm, code));
                last = Some(e);
            },
        }
        pm += 1;
    }
    Err(last)
}

/// Reads each of `codes` (each code once) from the first of the physical
/// monitors `0..pm_count` that answers.  Returns the answers by code, and
/// the error of the last failed attempt, if any.
pub fn read_vcp_features<E, F: Fn(usize, u8) -> Result<(u32, u32), E>>(
    codes: &Vec<u8>,
    pm_count: usize,
    read: F,
) -> (r: (HashMap<u8, (u32, u32)>, Option<E>))
    requires
        forall|pm: usize, c: u8| read.requires((pm, c)),
    ensures
        forall|c: u8| #[trigger] r.0@.contains_key(c) ==> unique(codes@).contains(c) && answered(
            read,
            pm_count,
            c,
            r.0@[c],
        ),
        forall|c: u8| #[trigger] unique(codes@).contains(c) && !r.0@.contains_key(c) ==> no_answer(
            read,
            pm_count,
            c,
        ),
{
    let norm = unique_keep_order(codes);
    let mut results: HashMap<u8, (u32, u32)> = HashMap::new();
    let mut last: Option<E> = None;
    let mut i: usize = 0;
    while i < norm.len()
        invariant
            i <= norm@.len(),
            norm@ == unique(codes@),
            forall|p: usize, c: u8| read.requires((p, c)),
            forall|c: u8| #[trigger] results@.contains_key(c) ==> norm@.take(i as int).contains(c) && answered(
                read,
                pm_count,
                c,
                results@[c],
            ),
            forall|k: int| 0 <= k < i && !results@.contains_key(#[trigger] norm@[k]) ==> no_answer(read, pm_count, norm@[k]),
        decreases norm.len() - i,
    {
        let code = norm[i];
        let mut pm: usize = 0;
        let mut got: Option<(u32, u32)> = None;
        while pm < pm_count
            invariant
                pm <= pm_count,
                forall|p: usize, c: u8| read.requires((p, c)),
                forall|p: usize| p < pm ==> #[trigger] read_failed(read, p, code),
                got matches Some(v) ==> answered(read, pm_count, code, v),
            ensures
                got is None ==> no_answer(read, pm_count, code),
                got matches Some(v) ==> answered(read, pm_count, code, v),
            decreases pm_count - pm,
        {
            let answer = read(pm, code);
            match answer {
                Ok(v) => {
                    assert(answer == Ok::<(u32, u32), E>(v));
                    assert(first_answer(read, pm_count, code, pm, v));
                    assert(answered(read, pm_count, code, v));
                    got = Some(v);
                    break;
                },
                Err(e) => {
                    assert(read_failed(read, pm, code));
                    last = Some(e);
                },
            }
            pm += 1;
        }
        let ghost before = results@;
        if let Some(v) = got {
            results.insert(code, v);
        }
        proof {
            assert(norm@.take(i + 1) =~= norm@.take(i as int).push(code));
            assert forall|c: u8| #[trigger] results@.contains_key(c) implies norm@.take(i + 1).contains(c) by {
                if c == code {
                    assert(norm@.take(i + 1)[i as int] == c);
                } else {
                    assert(before.contains_key(c));
                    let k = choose|k: int| 0 <= k < i && norm@.take(i as int)[k] == c;
                    assert(norm@.take(i + 1)[k] == c);
                }
            }
            assert forall|k: int| 0 <= k < i + 1 && !results@.contains_key(#[trigger] norm@[k]) implies no_answer(
                read,
                pm_count,
                norm@[k],
            ) by {
                if k < i {
                    if norm@[k] == code {
                        // a code occurs once in `norm`
                        crate::infra::winapi::ddc::sys::caps_parse::lemma_unique(codes@);
                        assert(no_duplicates(norm@));
                    }
                }
            }
        }
        i += 1;
    }
    proof {
        assert(norm@.take(norm.len() as int) =~= norm@);
        assert forall|c: u8| #[trigger] unique(codes@).contains(c) && !results@.contains_key(c) implies no_answer(
            read,
            pm_count,
            c,
        ) by {
            let k = choose|k: int| 0 <= k < norm@.len() && norm@[k] == c;
        }
    }
    (results, last)
}

/// Physical monitor `pm` can accept the write of `value` to `code`.
pub open spec fn write_succeeded<E, W: Fn(usize, u8, u32) -> Result<(), E>>(
    write: W,
    pm: usize,
    code: u8,
    value: u32,
) -> bool {
    call_ensures(write, (pm, code, value), Ok(()))
}

/// Physical monitor `pm` can refuse the write of `value` to `code`.
pub open spec fn write_failed<E, W: Fn(usize, u8, u32) -> Result<(), E>>(
    write: W,
    pm: usize,
    code: u8,
    value: u32,
) -> bool {
    exists|e: E| call_ensures(write, (pm, code, value), Err(e))
}

/// Physical monitor `pm` was asked to write `value` to `code`: an answer
/// that `write` gives to exactly that request was received.
pub open spec fn write_attempted<E, W: Fn(usize, u8, u32) -> Result<(), E>>(
    write: W,
    pm: usize,
    code: u8,
    value: u32,
) -> bool {
    write_succeeded(write, pm, code, value) || write_failed(write, pm, code, value)
}

/// Physical monitor `pm` can refuse the write of `value` to `code` with
/// the error `e`.
pub open spec fn refused_with<E, W: Fn(usize, u8, u32) -> Result<(), E>>(
    write: W,
    pm: usize,
    code: u8,
    value: u32,
    e: E,
) -> bool {
    call_ensures(write, (pm, code, value), Err(e))
}

/// One of the physical monitors `0..pm_count` can accept the write of
/// `value` to `code`.
pub open spec fn accepted<E, W: Fn(usize, u8, u32) -> Result<(), E>>(
    write: W,
    pm_count: usize,
    code: u8,
    value: u32,
) -> bool {
    exists|pm: usize| pm < pm_count && #[trigger] write_succeeded(write, pm, code, value)
}

/// Writes `value` to `code` on the physical monitors `0..pm_count` in turn
/// until one accepts; when none does, returns the error of the last
/// attempt.
pub fn write_vcp_feature<E, W: Fn(usize, u8, u32) -> Result<(), E>>(
    pm_count: usize,
    code: u8,
    value: u32,
    write: W,
) -> (r: Result<(), Option<E>>)
    requires
        forall|pm: usize, c: u8, v: u32| write.requires((pm, c, v)),
    ensures
        r is Ok ==> accepted(write, pm_count, code, value),
        r is Ok ==> exists|pm: usize|
            pm < pm_count && #[trigger] write_succeeded(write, pm, code, value) && forall|q: usize|
                q < pm ==> #[trigger] write_failed(write, q, code, value),
        r matches Err(last) ==> (forall|pm: usize| pm < pm_count ==> #[trigger] write_failed(write, pm, code, value))
            && (last is None <==> pm_count == 0),
        r matches Err(Some(e)) ==> refused_with(write, (pm_count - 1) as usize, code, value, e),
{
    let mut last: Option<E> = None;
    let mut pm: usize = 0;
    while pm < pm_count
        invariant
            pm <= pm_count,
            forall|p: usize, c: u8, v: u32| write.requires((p, c, v)),
            forall|p: usize| p < pm ==> #[trigger] write_failed(write, p, code, value),
            last is None <==> pm == 0,
            last matches Some(e) ==> refused_with(write, (pm - 1) as usize, code, value, e),
        decreases pm_count - pm,
    {
        let answer = write(pm, code, value);
        match answer {
            Ok(u) => {
                assert(answer == Ok::<(), E>(()));
                assert(write_succeeded(write, pm, code, value));
                assert(accepted(write, pm_count, code, value));
                return Ok(());
            },
            Err(e) => {
                assert(write_failed(write, pm, code, value));
                last = Some(e);
            },
        }
        pm += 1;
    }
    Err(last)
}

/// The pairs of `items`, keeping for each code only its first pair.
pub open spec fn first_per_code(items: Seq<(u8, u32)>) -> Seq<(u8, u32)>
    decreases items.len(),
{
    if items.len() == 0 {
        Seq::empty()
    } else {
        let prev = first_per_code(items.drop_last());
        if prev.map_values(|p: (u8, u32)| p.0).contains(items.last().0) {
            prev
        } else {
            prev.push(items.last())
        }
    }
}

/// Writes each `(code, value)` of `items` (for a code listed twice, the
/// first pair) to every one of the physical monitors `0..pm_count`.
/// Returns, in order, each code with whether some physical monitor
/// accepted it, and the error of the last refused write, if any.
pub fn write_vcp_features<E, W: Fn(usize, u8, u32) -> Result<(), E>>(
    items: &Vec<(u8, u32)>,
    pm_count: usize,
    write: W,
) -> (r: (Vec<(u8, bool)>, Option<E>))
    requires
        forall|pm: usize, c: u8, v: u32| write.requires((pm, c, v)),
    ensures
        r.0@.len() == first_per_code(items@).len(),
        forall|k: int| 0 <= k < r.0@.len() ==> (#[trigger] r.0@[k]).0 == first_per_code(items@)[k].0,
        forall|k: int| 0 <= k < r.0@.len() && (#[trigger] r.0@[k]).1 ==> accepted(
            write,
            pm_count,
            first_per_code(items@)[k].0,
            first_per_code(items@)[k].1,
        ),
        forall|k: int| 0 <= k < r.0@.len() && !(#[trigger] r.0@[k]).1 ==> forall|pm: usize|
            pm < pm_count ==> #[trigger] write_failed(
                write,
                pm,
                first_per_code(items@)[k].0,
                first_per_code(items@)[k].1,
            ),
        forall|k: int, pm: usize|
            0 <= k < r.0@.len() && pm < pm_count ==> #[trigger] write_attempted(
                write,
                pm,
                first_per_code(items@)[k].0,
                first_per_code(items@)[k].1,
            ),
        r.1 is None ==> forall|k: int, pm: usize|
            0 <= k < r.0@.len() && pm < pm_count ==> #[trigger] write_succeeded(
                write,
                pm,
                first_per_code(items@)[k].0,
                first_per_code(items@)[k].1,
            ),
        r.1 matches Some(e) ==> exists|k: int, pm: usize|
            0 <= k < r.0@.len() && pm < pm_count && #[trigger] refused_with(
                write,
                pm,
                first_per_code(items@)[k].0,
                first_per_code(items@)[k].1,
                e,
            ),
{
    let mut norm: Vec<(u8, u32)> = Vec::new();
    let mut seen: HashSet<u8> = HashSet::new();
    let mut i: usize = 0;
    assert(norm@ =~= first_per_code(items@.take(0)));
    while i < items.len()
        invariant
            i <= items@.len(),
            norm@ == first_per_code(items@.take(i as int)),
            forall|c: u8| #[trigger] seen@.contains(c) <==> norm@.map_values(|p: (u8, u32)| p.0).contains(c),
        decreases items.len() - i,
    {
        assert(items@.take(i + 1).drop_last() =~= items@.take(i as int));
        let item = items[i];
        let ghost before = norm@;
        if seen.insert(item.0) {
            norm.push(item);
            let ghost ks = norm@.map_values(|p: (u8, u32)| p.0);
            let ghost kb = before.map_values(|p: (u8, u32)| p.0);
            assert(ks =~= kb.push(item.0));
            assert forall|c: u8| #[trigger] ks.contains(c) <==> kb.contains(c) || c == item.0 by {
                if kb.contains(c) {
                    let k = choose|k: int| 0 <= k < kb.len() && kb[k] == c;
                    assert(ks[k] == c);
                }
                if ks.contains(c) && c != item.0 {
                    let k = choose|k: int| 0 <= k < ks.len() && ks[k] == c;
                    assert(kb[k] == c);
                }
                if c == item.0 {
                    assert(ks[kb.len() as int] == c);
                }
            }
        }
        i += 1;
    }
    assert(items@.take(items.len() as int) =~= items@);

    let mut status: Vec<(u8, bool)> = Vec::new();
    let mut last: Option<E> = None;
    let mut j: usize = 0;
    while j < norm.len()
        invariant
            j <= norm@.len(),
            norm@ == first_per_code(items@),
            forall|p: usize, c: u8, v: u32| write.requires((p, c, v)),
            status@.len() == j,
            forall|k: int| 0 <= k < j ==> (#[trigger] status@[k]).0 == norm@[k].0,
            forall|k: int| 0 <= k < j && (#[trigger] status@[k]).1 ==> accepted(
                write,
                pm_count,
                norm@[k].0,
                norm@[k].1,
            ),
            forall|k: int| 0 <= k < j && !(#[trigger] status@[k]).1 ==> forall|pm: usize|
                pm < pm_count ==> #[trigger] write_failed(write, pm, norm@[k].0, norm@[k].1),
            forall|k: int, pm: usize|
                0 <= k < j && pm < pm_count ==> #[trigger] write_attempted(write, pm, norm@[k].0, norm@[k].1),
            last is None ==> forall|k: int, pm: usize|
                0 <= k < j && pm < pm_count ==> #[trigger] write_succeeded(write, pm, norm@[k].0, norm@[k].1),
            last matches Some(e) ==> exists|k: int, pm: usize|
                0 <= k < j && pm < pm_count && #[trigger] refused_with(write, pm, norm@[k].0, norm@[k].1, e),
        decreases norm.len() - j,
    {
        let (code, value) = norm[j];
        let mut any_ok = false;
        let mut pm: usize = 0;
        let ghost last_before = last;
        while pm < pm_count
            invariant
                pm <= pm_count,
                j < norm@.len(),
                code == norm@[j as int].0,
                value == norm@[j as int].1,
                forall|p: usize, c: u8, v: u32| write.requires((p, c, v)),
                any_ok ==> accepted(write, pm, code, value),
                !any_ok ==> forall|q: usize| q < pm ==> #[trigger] write_failed(write, q, code, value),
                forall|q: usize| q < pm ==> #[trigger] write_attempted(write, q, code, value),
                last_before is None ==> forall|k: int, p: usize|
                    0 <= k < j && p < pm_count ==> #[trigger] write_succeeded(write, p, norm@[k].0, norm@[k].1),
                last_before matches Some(e) ==> exists|k: int, p: usize|
                    0 <= k < j && p < pm_count && #[trigger] refused_with(write, p, norm@[k].0, norm@[k].1, e),
                last is None ==> last_before is None && forall|q: usize| q < pm ==> #[trigger] write_succeeded(
                    write,
                    q,
                    code,
                    value,
                ),
                last matches Some(e) ==> (last_before == last) || exists|q: usize|
                    q < pm && #[trigger] refused_with(write, q, code, value, e),
            decreases pm_count - pm,
        {
            let answer = write(pm, code, value);
            match answer {
                Ok(u) => {
                    assert(answer == Ok::<(), E>(()));
                    assert(write_succeeded(write, pm, code, value));
                    assert(accepted(write, (pm + 1) as usize, code, value));
                    any_ok = true;
                },
                Err(e) => {
                    assert(write_failed(write, pm, code, value));
                    proof {
                        if any_ok {
                            let q = choose|q: usize| q < pm && #[trigger] write_succeeded(write, q, code, value);
                            assert(accepted(write, (pm + 1) as usize, code, value));
                        }
                    }
                    assert(refused_with(write, pm, code, value, e));
                    assert(refused_with(write, pm, code, value, e));
                    last = Some(e);
                },
            }
            pm += 1;
        }
        status.push((code, any_ok));
        j += 1;
    }
    (status, last)
}

/// The codes whose flag is `false`, in order.
pub open spec fn failed_of(status: Seq<(u8, bool)>) -> Seq<u8>
    decreases status.len(),
{
    if status.len() == 0 {
        Seq::empty()
    } else if status.last().1 {
        failed_of(status.drop_last())
    } else {
        failed_of(status.drop_last()).push(status.last().0)
    }
}

/// The codes that no physical monitor accepted, in order.
pub fn failed_codes(status: &Vec<(u8, bool)>) -> (r: Vec<u8>)
    ensures
        r@ == failed_of(status@),
{
    let mut out: Vec<u8> = Vec::new();
    let mut i: usize = 0;
    assert(out@ =~= failed_of(status@.take(0)));
    while i < status.len()
        invariant
            i <= status@.len(),
            out@ == failed_of(status@.take(i as int)),
        decreases status.len() - i,
    {
        assert(status@.take(i + 1).drop_last() =~= status@.take(i as int));
        if !status[i].1 {
            out.push(status[i].0);
        }
        i += 1;
    }
    assert(status@.take(status.len() as int) =~= status@);
    out
}

/// `0x` and the two upper-case hexadecimal digits of `b`.
pub open spec fn hex_byte_text(b: u8) -> Seq<char> {
    seq!['0', 'x', hex_upper_digit((b / 16) as nat), hex_upper_digit((b % 16) as nat)]
}

/// `codes` written as `0x0A 0x10 ...` (upper-case, two digits each).
pub open spec fn codes_text(codes: Seq<u8>) -> Seq<char>
    decreases codes.len(),
{
    if codes.len() == 0 {
        Seq::empty()
    } else if codes.len() == 1 {
        hex_byte_text(codes[0])
    } else {
        codes_text(codes.drop_last()) + seq![' '] + hex_byte_text(codes.last())
    }
}

/// `codes` written as `0x0A 0x10 ...`.
pub fn format_codes(codes: &Vec<u8>) -> (r: String)
    ensures
        r@ == codes_text(codes@),
{
    let mut r = String::new();
    let mut i: usize = 0;
    assert(r@ =~= codes_text(codes@.take(0)));
    while i < codes.len()
        invariant
            i <= codes@.len(),
            r@ == codes_text(codes@.take(i as int)),
        decreases codes.len() - i,
    {
        let b = codes[i];
        if i > 0 {
            push_char(&mut r, ' ');
        }
        push_char(&mut r, '0');
        push_char(&mut r, 'x');
        push_char(&mut r, hex_upper_digit_char((b / 16) as u16));
        push_char(&mut r, hex_upper_digit_char((b % 16) as u16));
        i += 1;
        assert(codes@.take(i as int).drop_last() =~= codes@.take(i - 1));
        assert(r@ =~= codes_text(codes@.take(i as int)));
    }
    assert(codes@.take(codes.len() as int) =~= codes@);
    r
}

/// The features of the codes in `vcp_codes` that `got` holds, in the
/// order of `vcp_codes`.
pub fn select_vcp_features(vcp_codes: &Vec<u8>, got: &HashMap<u8, (u32, u32)>) -> (r: Vec<VcpFeature>)
    ensures
        r@ == vcp_codes@.filter(|c: u8| got@.contains_key(c)).map_values(
            |c: u8| VcpFeature { vcp_code: c, current: got@[c].0, maximum: got@[c].1 },
        ),
{
    let ghost sel = |c: u8| got@.contains_key(c);
    let ghost mk = |c: u8| VcpFeature { vcp_code: c, current: got@[c].0, maximum: got@[c].1 };
    let mut out: Vec<VcpFeature> = Vec::new();
    let mut i: usize = 0;
    assert(vcp_codes@.take(0).filter(sel) =~= Seq::<u8>::empty());
    assert(out@ =~= vcp_codes@.take(0).filter(sel).map_values(mk));
    while i < vcp_codes.len()
        invariant
            i <= vcp_codes@.len(),
            sel == (|c: u8| got@.contains_key(c)),
            mk == (|c: u8| VcpFeature { vcp_code: c, current: got@[c].0, maximum: got@[c].1 }),
            out@ == vcp_codes@.take(i as int).filter(sel).map_values(mk),
        decreases vcp_codes.len() - i,
    {
        let c = vcp_codes[i];
        let ghost before = vcp_codes@.take(i as int);
        assert(vcp_codes@.take(i + 1) =~= before.push(c));
        proof {
            reveal_with_fuel(Seq::filter, 1);
            assert(before.push(c).drop_last() =~= before);
        }
        match got.get(&c) {
            Some(v) => {
                out.push(VcpFeature { vcp_code: c, current: v.0, maximum: v.1 });
                assert(out@ =~= vcp_codes@.take(i + 1).filter(sel).map_values(mk));
            },
            None => {
                assert(out@ =~= vcp_codes@.take(i + 1).filter(sel).map_values(mk));
            },
        }
        i += 1;
    }
    assert(vcp_codes@.take(vcp_codes.len() as int) =~= vcp_codes@);
    out
}

/// The position of the first of `code_lists` that lists any code.
pub fn first_code_list(code_lists: &Vec<Vec<u8>>) -> (r: Option<usize>)
    ensures
        match r {
            Some(k) => k < code_lists@.len() && code_lists@[k as int]@.len() > 0 && forall|j: int|
                0 <= j < k ==> (#[trigger] code_lists@[j])@.len() == 0,
            None => forall|j: int| 0 <= j < code_lists@.len() ==> (#[trigger] code_lists@[j])@.len() == 0,
        },
{
    let mut k: usize = 0;
    while k < code_lists.len()
        invariant
            k <= code_lists@.len(),
            forall|j: int| 0 <= j < k ==> (#[trigger] code_lists@[j])@.len() == 0,
        decreases code_lists.len() - k,
    {
        if code_lists[k].len() > 0 {
            return Some(k);
        }
        k += 1;
    }
    None
}


/// What a read of several codes comes to, given the answers `results` and
/// the error `last_err` of the last failed attempt: the answers when some
/// code was answered, and otherwise a failure carrying that error.
pub fn vcp_read_outcome<E>(results: HashMap<u8, (u32, u32)>, last_err: Option<E>) -> (r: Result<
    HashMap<u8, (u32, u32)>,
    Option<E>,
>)
    ensures
        results@.len() > 0 ==> (r matches Ok(m) && m@ == results@),
        results@.len() == 0 ==> r == Err::<HashMap<u8, (u32, u32)>, Option<E>>(last_err),
{
    if results.len() == 0 {
        Err(last_err)
    } else {
        Ok(results)
    }
}

/// What a write of several codes comes to, given the per-code flags
/// `status` and the error `last_err` of the last refused write: the flags
/// when every code was accepted by some physical monitor, and otherwise a
/// failure naming, in order, the codes that none accepted, with that error.
pub fn vcp_write_outcome<E>(status: Vec<(u8, bool)>, last_err: Option<E>) -> (r: Result<
    Vec<(u8, bool)>,
    (Vec<u8>, Option<E>),
>)
    ensures
        failed_of(status@).len() == 0 ==> (r matches Ok(v) && v@ == status@),
        failed_of(status@).len() > 0 ==> (r matches Err((failed, e)) && failed@ == failed_of(status@) && e
            == last_err),
{
    let failed = failed_codes(&status);
    if failed.len() == 0 {
        Ok(status)
    } else {
        Err((failed, last_err))
    }
}

} // verus!
