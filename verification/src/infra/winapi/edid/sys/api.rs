//! EDID decoding and the registry location of a monitor's EDID.
//!
//! The operating-system queries (active display paths, device names, the
//! registry read) stand outside this library; what they return is decoded
//! here.

use vstd::prelude::*;

use crate::infra::winapi::edid::error::EdidError;
use crate::text::{decimal, decimal_pad2, hex4_upper, push_char, push_decimal, push_decimal_pad2, push_hex4_upper, str_chars};

verus! {

/// The identifying fields of an EDID base block.
#[derive(Debug, Clone, PartialEq, Eq)]
pub struct BasicEdidFields {
    /// `VENDOR-PPPP-YYYYWww-SERIAL`, e.g. `DEL-1A2B-2024W11-12345678`.
    pub identifier: String,
    /// The three-letter PnP manufacturer id.
    pub vendor: String,
    pub product_id: u16,
    pub serial: u32,
    /// Week of manufacture; 0 when the block gives none.
    pub week: u8,
    /// Year of manufacture.
    pub year: u16,
}

/// Everything read about one active display path.
#[derive(Debug, Clone, PartialEq, Eq)]
pub struct EdidInfo {
    /// The GDI device name, e.g. `\\.\DISPLAY1`.
    pub logical_name: String,
    pub pnp_device_path: String,
    pub registry_path: String,
    pub raw_edid: Vec<u8>,
    pub parsed: BasicEdidFields,
}

/// The mathematical value of [`BasicEdidFields`].
pub struct BasicEdidModel {
    pub identifier: Seq<char>,
    pub vendor: Seq<char>,
    pub product_id: u16,
    pub serial: u32,
    pub week: u8,
    pub year: u16,
}

impl View for BasicEdidFields {
    type V = BasicEdidModel;

    open spec fn view(&self) -> BasicEdidModel {
        BasicEdidModel {
            identifier: self.identifier@,
            vendor: self.vendor@,
            product_id: self.product_id,
            serial: self.serial,
            week: self.week,
            year: self.year,
        }
    }
}

/// The length below which a block is no EDID base block.
pub const EDID_MIN_LEN: usize = 128;

/// The big-endian manufacturer id in bytes 8 and 9.
pub open spec fn manufacturer_id(e: Seq<u8>) -> int {
    e[8] * 256 + e[9]
}

/// A letter of the manufacturer id: `1..=26` is `A..=Z`, `0` is `?`, and
/// the out-of-range codes `27..=31` continue past `Z` (`[`, `\`, `]`, `^`,
/// `_`).
pub open spec fn vendor_letter(c: int) -> char {
    if c == 0 {
        '?'
    } else {
        ((65 + c - 1) as u32) as char
    }
}

/// The three letters packed five bits each into the manufacturer id.
pub open spec fn vendor_spec(e: Seq<u8>) -> Seq<char> {
    let m = manufacturer_id(e);
    seq![vendor_letter((m / 1024) % 32), vendor_letter((m / 32) % 32), vendor_letter(m % 32)]
}

/// The little-endian product code in bytes 10 and 11.
pub open spec fn product_id_spec(e: Seq<u8>) -> int {
    e[10] + 256 * e[11]
}

/// The little-endian serial number in bytes 12 to 15.
pub open spec fn serial_spec(e: Seq<u8>) -> int {
    e[12] + 256 * e[13] + 65536 * e[14] + 16777216 * e[15]
}

/// The week of manufacture in byte 16; `0` and `255` (no week, or model
/// year) read as 0.
pub open spec fn week_spec(e: Seq<u8>) -> int {
    if e[16] == 0 || e[16] == 255 {
        0
    } else {
        e[16] as int
    }
}

/// The year of manufacture: byte 17 counts years from 1990.
pub open spec fn year_spec(e: Seq<u8>) -> int {
    e[17] + 1990
}

/// The identifier: vendor, four-digit upper-case hex product code, year,
/// `W`, two-digit week and decimal serial, joined by `-` as in
/// `DEL-1A2B-2024W11-12345678`.
pub open spec fn identifier_spec(e: Seq<u8>) -> Seq<char> {
    vendor_spec(e) + seq!['-'] + hex4_upper(product_id_spec(e) as nat) + seq!['-'] + decimal(
        year_spec(e) as nat,
    ) + seq!['W'] + decimal_pad2(week_spec(e) as nat) + seq!['-'] + decimal(serial_spec(e) as nat)
}

/// The message for a block too short to be an EDID base block.
pub open spec fn too_short_message(len: nat) -> Seq<char> {
    "EDID too short ("@ + decimal(len) + " bytes). Need at least 128 bytes."@
}

/// What `parse_basic_edid_fields` gives for the block `e`.
pub open spec fn basic_edid_spec(e: Seq<u8>) -> Result<BasicEdidModel, Seq<char>> {
    if e.len() < 128 {
        Err(too_short_message(e.len()))
    } else {
        Ok(
            BasicEdidModel {
                identifier: identifier_spec(e),
                vendor: vendor_spec(e),
                product_id: product_id_spec(e) as u16,
                serial: serial_spec(e) as u32,
                week: week_spec(e) as u8,
                year: year_spec(e) as u16,
            },
        )
    }
}

fn vendor_letter_char(c: u16) -> (r: char)
    requires
        c < 32,
    ensures
        r == vendor_letter(c as int),
{
    if c == 0 {
        '?'
    } else {
        ((65 + c - 1) as u8) as char
    }
}

/// Decodes the identifying fields of an EDID base block.
pub fn parse_basic_edid_fields(edid: &[u8]) -> (r: Result<BasicEdidFields, EdidError>)
    ensures
        match (r, basic_edid_spec(edid@)) {
            (Ok(f), Ok(m)) => f@ == m,
            (Err(EdidError::InvalidEdid(msg)), Err(t)) => msg@ == t,
            _ => false,
        },
{
    if edid.len() < EDID_MIN_LEN {
        let mut msg = String::from_str("EDID too short (");
        push_decimal(&mut msg, edid.len() as u64);
        msg.append(" bytes). Need at least 128 bytes.");
        return Err(EdidError::InvalidEdid(msg));
    }
    let manufacturer_id: u16 = (edid[8] as u16) * 256 + (edid[9] as u16);
    let mut vendor = String::new();
    push_char(&mut vendor, vendor_letter_char((manufacturer_id / 1024) % 32));
    push_char(&mut vendor, vendor_letter_char((manufacturer_id / 32) % 32));
    push_char(&mut vendor, vendor_letter_char(manufacturer_id % 32));
    assert(vendor@ =~= vendor_spec(edid@));

    let product_id: u16 = (edid[10] as u16) + (edid[11] as u16) * 256;
    let serial: u32 = (edid[12] as u32) + (edid[13] as u32) * 256 + (edid[14] as u32) * 65536
        + (edid[15] as u32) * 16777216;
    let week: u8 = match edid[16] {
        0 | 255 => 0,
        w => w,
    };
    let year: u16 = (edid[17] as u16) + 1990;

    let mut identifier = String::new();
    identifier.append(vendor.as_str());
    push_char(&mut identifier, '-');
    push_hex4_upper(&mut identifier, product_id);
    push_char(&mut identifier, '-');
    push_decimal(&mut identifier, year as u64);
    push_char(&mut identifier, 'W');
    push_decimal_pad2(&mut identifier, week as u64);
    push_char(&mut identifier, '-');
    push_decimal(&mut identifier, serial as u64);
    assert(identifier@ =~= identifier_spec(edid@));

    Ok(BasicEdidFields { identifier, vendor, product_id, serial, week, year })
}

// ---------------------------------------------------------------------------
// Registry location
// ---------------------------------------------------------------------------

/// The `\\?\` prefix of a device interface path.
pub open spec fn device_path_prefix() -> Seq<char> {
    seq!['\\', '\\', '?', '\\']
}

/// `s` with every leading `\\?\` removed (`str::trim_start_matches`).
pub open spec fn strip_device_prefix(s: Seq<char>) -> Seq<char>
    decreases s.len(),
{
    if s.len() >= 4 && s.subrange(0, 4) == device_path_prefix() {
        strip_device_prefix(s.subrange(4, s.len() as int))
    } else {
        s
    }
}

/// A `#{` starts at position `k`.
pub open spec fn guid_at(s: Seq<char>, k: int) -> bool {
    s[k] == '#' && s[k + 1] == '{'
}

/// The position of the first `#{` (the start of the interface class GUID),
/// or `-1`.
pub open spec fn class_guid_start(s: Seq<char>) -> int
    decreases s.len(),
{
    if s.len() < 2 {
        -1
    } else if s[0] == '#' && s[1] == '{' {
        0
    } else {
        let r = class_guid_start(s.drop_first());
        if r < 0 {
            -1
        } else {
            r + 1
        }
    }
}

/// `s` with each `#` replaced by `\`.
pub open spec fn hashes_to_backslashes(s: Seq<char>) -> Seq<char> {
    s.map_values(|c: char| if c == '#' { '\\' } else { c })
}

/// The registry key, under `HKEY_LOCAL_MACHINE`, that holds the EDID of the
/// monitor with the given PnP device interface path.
pub open spec fn registry_path_spec(pnp: Seq<char>) -> Seq<char> {
    let a = strip_device_prefix(pnp);
    let g = class_guid_start(a);
    let b = if g >= 0 {
        a.subrange(0, g)
    } else {
        a
    };
    "SYSTEM\\CurrentControlSet\\Enum\\"@ + hashes_to_backslashes(b) + "\\Device Parameters"@
}

proof fn lemma_class_guid_start(s: Seq<char>, i: int)
    requires
        0 <= i,
        i + 1 <= s.len(),
        forall|k: int| 0 <= k < i ==> !#[trigger] guid_at(s, k),
    ensures
        i + 1 < s.len() && s[i] == '#' && s[i + 1] == '{' ==> class_guid_start(s) == i,
        i + 1 == s.len() ==> class_guid_start(s) == -1,
    decreases i,
{
    if i > 0 {
        assert forall|k: int| 0 <= k < i - 1 implies !#[trigger] guid_at(s.drop_first(), k) by {
            assert(!guid_at(s, k + 1));
            assert(s.drop_first()[k] == s[k + 1]);
            assert(s.drop_first()[k + 1] == s[k + 2]);
        }
        assert(!guid_at(s, 0));
        lemma_class_guid_start(s.drop_first(), i - 1);
        assert(s.drop_first()[i - 1] == s[i]);
        if i + 1 < s.len() {
            assert(s.drop_first()[i] == s[i + 1]);
        }
    }
}

/// The registry key, relative to `HKEY_LOCAL_MACHINE`, that holds the EDID
/// of the monitor with the PnP device interface path `pnp_device_path`:
/// the path without its `\\?\` prefix and class GUID, `#` turned into `\`,
/// under `SYSTEM\CurrentControlSet\Enum` and ending in `Device Parameters`.
pub fn pnp_device_path_to_registry_path(pnp_device_path: &str) -> (r: String)
    ensures
        r@ == registry_path_spec(pnp_device_path@),
{
    let v = str_chars(pnp_device_path);
    let n = v.len();
    let mut start: usize = 0;
    assert(v@.subrange(0, n as int) =~= v@);
    while n >= 4 && start <= n - 4 && v[start] == '\\' && v[start + 1] == '\\' && v[start + 2] == '?' && v[start + 3] == '\\'
        invariant
            start <= n,
            n == v@.len(),
            strip_device_prefix(v@) == strip_device_prefix(v@.subrange(start as int, n as int)),
        decreases n - start,
    {
        let ghost t = v@.subrange(start as int, n as int);
        assert(t.subrange(0, 4) =~= device_path_prefix());
        assert(t.subrange(4, t.len() as int) =~= v@.subrange(start + 4, n as int));
        start += 4;
    }
    let ghost a = v@.subrange(start as int, n as int);
    proof {
        assert(v@.subrange(0, n as int) =~= v@);
        if a.len() >= 4 {
            assert(a.subrange(0, 4) != device_path_prefix()) by {
                if a.subrange(0, 4) == device_path_prefix() {
                    assert(a.subrange(0, 4)[0] == v@[start as int]);
                    assert(a.subrange(0, 4)[1] == v@[start + 1]);
                    assert(a.subrange(0, 4)[2] == v@[start + 2]);
                    assert(a.subrange(0, 4)[3] == v@[start + 3]);
                }
            }
        }
    }
    let mut end: usize = n;
    if start < n {
        let mut i = start;
        while i + 1 < n && !(v[i] == '#' && v[i + 1] == '{')
            invariant
                start <= i < n,
                n == v@.len(),
                a == v@.subrange(start as int, n as int),
                forall|k: int| 0 <= k < i - start ==> !#[trigger] guid_at(a, k),
            decreases n - i,
        {
            i += 1;
        }
        proof {
            lemma_class_guid_start(a, (i - start) as int);
        }
        if i + 1 < n {
            end = i;
        }
    } else {
        assert(a.len() == 0);
    }
    let ghost b = v@.subrange(start as int, end as int);
    assert(b == if class_guid_start(a) >= 0 {
        a.subrange(0, class_guid_start(a))
    } else {
        a
    }) by {
        if class_guid_start(a) < 0 {
            assert(b =~= a);
        } else {
            assert(b =~= a.subrange(0, class_guid_start(a)));
        }
    }
    let mut r = String::from_str("SYSTEM\\CurrentControlSet\\Enum\\");
    let ghost head = r@;
    let mut k = start;
    while k < end
        invariant
            start <= k <= end <= n,
            n == v@.len(),
            b == v@.subrange(start as int, end as int),
            r@ == head + hashes_to_backslashes(v@.subrange(start as int, k as int)),
        decreases end - k,
    {
        let c = v[k];
        push_char(&mut r, if c == '#' { '\\' } else { c });
        k += 1;
        assert(r@ =~= head + hashes_to_backslashes(v@.subrange(start as int, k as int)));
    }
    r.append("\\Device Parameters");
    r
}


// ---------------------------------------------------------------------------
// The registry's EDID value
// ---------------------------------------------------------------------------

/// The Win32 status of a call that succeeded (`ERROR_SUCCESS`).
pub const WIN32_SUCCESS: u32 = 0;

/// The Win32 status of a lookup whose key or value does not exist
/// (`ERROR_FILE_NOT_FOUND`).
pub const WIN32_FILE_NOT_FOUND: u32 = 2;

/// The registry type of a binary value (`REG_BINARY`).
pub const REGISTRY_BINARY: u32 = 3;

/// What the registry's answer to a query for the `EDID` value means.
#[derive(Debug, Clone, Copy, PartialEq, Eq, Structural)]
pub enum EdidValueProbe {
    /// The value is there and binary: it can be read.
    Readable,
    /// The key has no `EDID` value.
    Missing,
    /// The query failed with this status.
    QueryFailed(u32),
    /// The value is there but is not binary.
    NotBinary,
}

/// The meaning of the status `status` and value type `value_type` with
/// which the registry answered a query for the `EDID` value: "not found"
/// means the value is missing, any other failure is reported with its
/// status, and a value that is not binary is refused.
pub fn classify_edid_value(status: u32, value_type: u32) -> (r: EdidValueProbe)
    ensures
        r == (if status == WIN32_FILE_NOT_FOUND {
            EdidValueProbe::Missing
        } else if status != WIN32_SUCCESS {
            EdidValueProbe::QueryFailed(status)
        } else if value_type != REGISTRY_BINARY {
            EdidValueProbe::NotBinary
        } else {
            EdidValueProbe::Readable
        }),
{
    if status == WIN32_FILE_NOT_FOUND {
        EdidValueProbe::Missing
    } else if status != WIN32_SUCCESS {
        EdidValueProbe::QueryFailed(status)
    } else if value_type != REGISTRY_BINARY {
        EdidValueProbe::NotBinary
    } else {
        EdidValueProbe::Readable
    }
}


// ---------------------------------------------------------------------------
// Laws
// ---------------------------------------------------------------------------

/// `32` to the power `n`, for `n` in `0..=2`: the weight of the `n`-th
/// five-bit group from the right.
pub open spec fn pow32(n: int) -> int {
    if n == 0 {
        1
    } else if n == 1 {
        32
    } else {
        1024
    }
}

/// A block of at least 128 bytes always decodes, and its numeric fields
/// are read straight off its bytes: the product code is the little-endian
/// 16-bit value of bytes 10..=11, the serial the little-endian 32-bit value
/// of bytes 12..=15, the year byte 17 plus 1990, and the week byte 16
/// (0 when it reads 0 or 255).  The identifier ends with `-` and the serial
/// in decimal; a shorter block is refused.
pub proof fn law_edid_fields_from_bytes(e: Seq<u8>)
    ensures
        e.len() < 128 <==> basic_edid_spec(e) is Err,
        e.len() >= 128 ==> {
            let serial = e[12] + 256 * e[13] + 65536 * e[14] + 16777216 * e[15];
            let tail = seq!['-'] + decimal(serial as nat);
            &&& basic_edid_spec(e) matches Ok(f)
            &&& f.serial as int == serial
            &&& f.product_id as int == e[10] + 256 * e[11]
            &&& f.year as int == e[17] + 1990
            &&& f.week as int == if e[16] == 0 || e[16] == 255 { 0 } else { e[16] as int }
            &&& f.identifier.len() >= tail.len()
            &&& f.identifier.skip(f.identifier.len() - tail.len()) == tail
            &&& f.vendor.len() == 3
            &&& forall|i: int| 0 <= i < 3 ==> {
                let c = ((e[8] * 256 + e[9]) / pow32(2 - i)) % 32;
                #[trigger] f.vendor[i] == if c == 0 { '?' } else { ((64 + c) as u32) as char }
            }
            &&& f.identifier.len() >= 4 && f.identifier.take(4) == f.vendor + seq!['-']
        },
{
    if e.len() >= 128 {
        let serial = e[12] + 256 * e[13] + 65536 * e[14] + 16777216 * e[15];
        assert(0 <= serial <= 0xffff_ffff);
        assert(0 <= e[10] + 256 * e[11] <= 0xffff);
        let tail = seq!['-'] + decimal(serial as nat);
        let id = identifier_spec(e);
        let head = vendor_spec(e) + seq!['-'] + hex4_upper(product_id_spec(e) as nat) + seq!['-'] + decimal(
            year_spec(e) as nat,
        ) + seq!['W'] + decimal_pad2(week_spec(e) as nat);
        assert(id == head + tail);
        assert(id.skip(id.len() - tail.len()) =~= tail);
        assert(id.take(4) =~= vendor_spec(e) + seq!['-']);
    }
}

} // verus!
