//! Character-level helpers shared by the monitor discovery code and the
//! capability / EDID parsers: Unicode white-space trimming, ASCII case
//! folding, hexadecimal tokens and decimal rendering.

use vstd::prelude::*;
use vstd::string::*;

verus! {

// ---------------------------------------------------------------------------
// White space and trimming
// ---------------------------------------------------------------------------

/// The Unicode `White_Space` property, the notion of white space used by
/// `char::is_whitespace` and `str::trim`.
pub open spec fn is_white_space(c: char) -> bool {
    let u = c as u32;
    ||| 0x09 <= u <= 0x0D
    ||| u == 0x20
    ||| u == 0x85
    ||| u == 0xA0
    ||| u == 0x1680
    ||| 0x2000 <= u <= 0x200A
    ||| u == 0x2028
    ||| u == 0x2029
    ||| u == 0x202F
    ||| u == 0x205F
    ||| u == 0x3000
}

/// `s` without its leading white space.
pub open spec fn trim_start(s: Seq<char>) -> Seq<char>
    decreases s.len(),
{
    if s.len() > 0 && is_white_space(s[0]) {
        trim_start(s.drop_first())
    } else {
        s
    }
}

/// `s` without its trailing white space.
pub open spec fn trim_end(s: Seq<char>) -> Seq<char>
    decreases s.len(),
{
    if s.len() > 0 && is_white_space(s.last()) {
        trim_end(s.drop_last())
    } else {
        s
    }
}

/// `s` without leading and trailing white space.
pub open spec fn trim(s: Seq<char>) -> Seq<char> {
    trim_end(trim_start(s))
}

/// Neither end of `s` is white space.
pub open spec fn is_trimmed(s: Seq<char>) -> bool {
    s.len() == 0 || (!is_white_space(s[0]) && !is_white_space(s.last()))
}

/// Decides the `White_Space` property of `c`.
pub fn is_white_space_char(c: char) -> (r: bool)
    ensures
        r == is_white_space(c),
{
    let u = c as u32;
    (0x09 <= u && u <= 0x0D) || u == 0x20 || u == 0x85 || u == 0xA0 || u == 0x1680 || (0x2000
        <= u && u <= 0x200A) || u == 0x2028 || u == 0x2029 || u == 0x202F || u == 0x205F || u
        == 0x3000
}

/// Appends one character to a string (`String::push`).
#[verifier::external_body]
pub(crate) fn push_char(s: &mut String, c: char)
    ensures
        final(s)@ == old(s)@.push(c),
{
    s.push(c);
}

/// The characters of `s`, in order.
pub fn str_chars(s: &str) -> (v: Vec<char>)
    ensures
        v@ == s@,
{
    let mut v: Vec<char> = Vec::new();
    for c in it: s.chars()
        invariant
            v@ == it.seq().take(it.index@ as int),
    {
        v.push(c);
    }
    v
}

/// A new string holding `v[lo..hi]`.
pub fn string_from_chars(v: &Vec<char>, lo: usize, hi: usize) -> (r: String)
    requires
        lo <= hi <= v@.len(),
    ensures
        r@ == v@.subrange(lo as int, hi as int),
{
    let mut r = String::new();
    let mut i = lo;
    while i < hi
        invariant
            lo <= i <= hi,
            hi <= v@.len(),
            r@ == v@.subrange(lo as int, i as int),
        decreases hi - i,
    {
        push_char(&mut r, v[i]);
        i += 1;
        assert(r@ =~= v@.subrange(lo as int, i as int));
    }
    r
}

proof fn lemma_trim_start_skip(s: Seq<char>, lo: int)
    requires
        0 <= lo < s.len(),
        is_white_space(s[lo]),
    ensures
        trim_start(s.subrange(lo, s.len() as int)) == trim_start(s.subrange(lo + 1, s.len() as int)),
{
    let t = s.subrange(lo, s.len() as int);
    assert(t.drop_first() =~= s.subrange(lo + 1, s.len() as int));
}

proof fn lemma_trim_end_skip(s: Seq<char>, hi: int)
    requires
        0 < hi <= s.len(),
        is_white_space(s[hi - 1]),
    ensures
        trim_end(s.subrange(0, hi)) == trim_end(s.subrange(0, hi - 1)),
{
    let t = s.subrange(0, hi);
    assert(t.drop_last() =~= s.subrange(0, hi - 1));
}

/// Trims the white space off both ends of the characters `v`, and returns
/// the bounds of what is left.
pub fn trim_bounds(v: &Vec<char>) -> (r: (usize, usize))
    ensures
        r.0 <= r.1 <= v@.len(),
        v@.subrange(r.0 as int, r.1 as int) == trim(v@),
{
    let n = v.len();
    let mut lo: usize = 0;
    assert(v@.subrange(0, n as int) =~= v@);
    while lo < n && is_white_space_char(v[lo])
        invariant
            lo <= n,
            n == v@.len(),
            trim_start(v@) == trim_start(v@.subrange(lo as int, n as int)),
        decreases n - lo,
    {
        proof {
            lemma_trim_start_skip(v@, lo as int);
        }
        lo += 1;
    }
    let ghost front = v@.subrange(lo as int, n as int);
    assert(trim_start(front) == front);
    let mut hi: usize = n;
    assert(front.subrange(0, (n - lo) as int) =~= front);
    while hi > lo && is_white_space_char(v[hi - 1])
        invariant
            lo <= hi <= n,
            n == v@.len(),
            front == v@.subrange(lo as int, n as int),
            trim_end(front) == trim_end(front.subrange(0, (hi - lo) as int)),
        decreases hi,
    {
        proof {
            lemma_trim_end_skip(front, (hi - lo) as int);
            assert(front.subrange(0, (hi - lo - 1) as int) =~= v@.subrange(lo as int, (hi - 1) as int));
        }
        hi -= 1;
    }
    assert(front.subrange(0, (hi - lo) as int) =~= v@.subrange(lo as int, hi as int));
    (lo, hi)
}

/// `s` with leading and trailing white space removed (`str::trim`).
pub fn trim_str(s: &str) -> (r: String)
    ensures
        r@ == trim(s@),
{
    let v = str_chars(s);
    let (lo, hi) = trim_bounds(&v);
    string_from_chars(&v, lo, hi)
}

/// Trimming leaves a suffix of the input whose first character, if any,
/// is not white space.
pub proof fn lemma_trim_start_shape(s: Seq<char>)
    ensures
        trim_start(s).len() <= s.len(),
        trim_start(s) == s.subrange(s.len() - trim_start(s).len(), s.len() as int),
        trim_start(s).len() == 0 || !is_white_space(trim_start(s)[0]),
    decreases s.len(),
{
    if s.len() > 0 && is_white_space(s[0]) {
        lemma_trim_start_shape(s.drop_first());
        let t = trim_start(s.drop_first());
        assert(s.drop_first().subrange(s.len() - 1 - t.len(), s.len() - 1) =~= s.subrange(
            s.len() - t.len(),
            s.len() as int,
        ));
    } else {
        assert(s.subrange(0, s.len() as int) =~= s);
    }
}

/// Trimming the end leaves a prefix whose last character, if any, is not
/// white space; a first character that is not white space survives.
pub proof fn lemma_trim_end_shape(s: Seq<char>)
    ensures
        trim_end(s).len() <= s.len(),
        trim_end(s) == s.subrange(0, trim_end(s).len() as int),
        trim_end(s).len() == 0 || !is_white_space(trim_end(s).last()),
        s.len() > 0 && !is_white_space(s[0]) ==> trim_end(s).len() > 0,
    decreases s.len(),
{
    if s.len() > 0 && is_white_space(s.last()) {
        lemma_trim_end_shape(s.drop_last());
        let t = trim_end(s.drop_last());
        assert(s.drop_last().subrange(0, t.len() as int) =~= s.subrange(0, t.len() as int));
    } else {
        assert(s.subrange(0, s.len() as int) =~= s);
    }
}

/// What `trim` returns has no white space at either end.
pub proof fn lemma_trim_is_trimmed(s: Seq<char>)
    ensures
        is_trimmed(trim(s)),
        trim(s).len() <= s.len(),
{
    lemma_trim_start_shape(s);
    let t = trim_start(s);
    lemma_trim_end_shape(t);
    let r = trim_end(t);
    if r.len() > 0 {
        assert(r[0] == t[0]);
    }
}

/// A string with no white space at its ends is its own trim.
pub proof fn lemma_trimmed_is_fixed(s: Seq<char>)
    requires
        is_trimmed(s),
    ensures
        trim(s) == s,
{
}

/// Trimming twice is trimming once.
pub proof fn lemma_trim_idempotent(s: Seq<char>)
    ensures
        trim(trim(s)) == trim(s),
{
    lemma_trim_is_trimmed(s);
    lemma_trimmed_is_fixed(trim(s));
}

/// Trimming the front stops at the first character that is not white
/// space: what is left still holds position `k` and everything after it.
pub proof fn lemma_trim_start_keeps(s: Seq<char>, k: int)
    requires
        0 <= k < s.len(),
        !is_white_space(s[k]),
    ensures
        trim_start(s).len() >= s.len() - k,
    decreases s.len(),
{
    if s.len() > 0 && is_white_space(s[0]) {
        assert(s.drop_first()[k - 1] == s[k]);
        lemma_trim_start_keeps(s.drop_first(), k - 1);
    }
}

/// Trimming the back stops at the last character that is not white space:
/// what is left still holds position `k` and everything before it.
pub proof fn lemma_trim_end_keeps(s: Seq<char>, k: int)
    requires
        0 <= k < s.len(),
        !is_white_space(s[k]),
    ensures
        trim_end(s).len() >= k + 1,
    decreases s.len(),
{
    if s.len() > 0 && is_white_space(s.last()) {
        assert(s.drop_last()[k] == s[k]);
        lemma_trim_end_keeps(s.drop_last(), k);
    }
}

// ---------------------------------------------------------------------------
// ASCII case folding
// ---------------------------------------------------------------------------

/// `c` with an ASCII upper-case letter mapped to its lower-case form.
pub open spec fn ascii_lower(c: char) -> char {
    if 'A' <= c <= 'Z' {
        ((c as u32) + 32) as char
    } else {
        c
    }
}

/// `s` with every ASCII upper-case letter mapped to lower case
/// (`str::to_ascii_lowercase`).
pub open spec fn ascii_lowercase(s: Seq<char>) -> Seq<char> {
    s.map_values(|c: char| ascii_lower(c))
}

/// Lower-casing leaves white space where it was, and a lower-cased text is
/// its own lower-cased form.
pub proof fn lemma_ascii_lowercase_shape(s: Seq<char>)
    ensures
        ascii_lowercase(s).len() == s.len(),
        forall|i: int| 0 <= i < s.len() ==> is_white_space(#[trigger] ascii_lowercase(s)[i]) == is_white_space(s[i]),
        ascii_lowercase(ascii_lowercase(s)) == ascii_lowercase(s),
{
    assert forall|i: int| 0 <= i < s.len() implies is_white_space(#[trigger] ascii_lowercase(s)[i]) == is_white_space(s[i]) by {
        let c = s[i];
        if 'A' <= c <= 'Z' {
            assert(ascii_lower(c) as u32 == c as u32 + 32);
        }
    }
    assert forall|i: int| 0 <= i < s.len() implies #[trigger] ascii_lowercase(ascii_lowercase(s))[i] == ascii_lowercase(s)[i] by {
        let c = s[i];
        if 'A' <= c <= 'Z' {
            assert(ascii_lower(c) as u32 == c as u32 + 32);
        }
    }
    assert(ascii_lowercase(ascii_lowercase(s)) =~= ascii_lowercase(s));
}

/// Lower-cases one ASCII letter (`char::to_ascii_lowercase`).
pub fn ascii_lower_char(c: char) -> (r: char)
    ensures
        r == ascii_lower(c),
{
    if 'A' <= c && c <= 'Z' {
        ((c as u8) + 32) as char
    } else {
        c
    }
}

/// `v[lo..hi]` lower-cased, as a new string.
pub fn lowercase_from_chars(v: &Vec<char>, lo: usize, hi: usize) -> (r: String)
    requires
        lo <= hi <= v@.len(),
    ensures
        r@ == ascii_lowercase(v@.subrange(lo as int, hi as int)),
{
    let mut r = String::new();
    let mut i = lo;
    while i < hi
        invariant
            lo <= i <= hi,
            hi <= v@.len(),
            r@ == ascii_lowercase(v@.subrange(lo as int, i as int)),
        decreases hi - i,
    {
        push_char(&mut r, ascii_lower_char(v[i]));
        i += 1;
        assert(r@ =~= ascii_lowercase(v@.subrange(lo as int, i as int)));
    }
    r
}

// ---------------------------------------------------------------------------
// Hexadecimal tokens
// ---------------------------------------------------------------------------

/// An ASCII hexadecimal digit, in either case.
pub open spec fn is_hex_digit(c: char) -> bool {
    ('0' <= c <= '9') || ('a' <= c <= 'f') || ('A' <= c <= 'F')
}

/// The value of a hexadecimal digit.
pub open spec fn hex_digit_value(c: char) -> int {
    if '0' <= c <= '9' {
        c as int - '0' as int
    } else if 'a' <= c <= 'f' {
        c as int - 'a' as int + 10
    } else {
        c as int - 'A' as int + 10
    }
}

/// A token of one or two hexadecimal digits.
pub open spec fn is_hex_byte(tok: Seq<char>) -> bool {
    1 <= tok.len() <= 2 && forall|i: int| 0 <= i < tok.len() ==> is_hex_digit(#[trigger] tok[i])
}

/// The byte that a token of one or two hexadecimal digits denotes, if it
/// is such a token.
pub open spec fn hex_byte(tok: Seq<char>) -> Option<u8> {
    if !is_hex_byte(tok) {
        None
    } else if tok.len() == 1 {
        Some(hex_digit_value(tok[0]) as u8)
    } else {
        Some((hex_digit_value(tok[0]) * 16 + hex_digit_value(tok[1])) as u8)
    }
}

fn hex_digit(c: char) -> (r: Option<u8>)
    ensures
        r is Some <==> is_hex_digit(c),
        r matches Some(d) ==> d == hex_digit_value(c) && d < 16,
{
    if '0' <= c && c <= '9' {
        Some(((c as u32) - ('0' as u32)) as u8)
    } else if 'a' <= c && c <= 'f' {
        Some(((c as u32) - ('a' as u32) + 10) as u8)
    } else if 'A' <= c && c <= 'F' {
        Some(((c as u32) - ('A' as u32) + 10) as u8)
    } else {
        None
    }
}

/// Whether `tok` is one or two hexadecimal digits.
pub fn is_hex_byte_token(tok: &Vec<char>) -> (r: bool)
    ensures
        r == is_hex_byte(tok@),
{
    if tok.len() == 0 || tok.len() > 2 {
        return false;
    }
    if hex_digit(tok[0]).is_none() {
        return false;
    }
    if tok.len() == 2 && hex_digit(tok[1]).is_none() {
        return false;
    }
    assert forall|i: int| 0 <= i < tok@.len() implies is_hex_digit(#[trigger] tok@[i]) by {
        if i == 1 {
        }
    }
    true
}

/// The byte denoted by a token of one or two hexadecimal digits
/// (`u8::from_str_radix(tok, 16)` guarded by the token shape).
pub fn parse_hex_byte(tok: &Vec<char>) -> (r: Option<u8>)
    ensures
        r == hex_byte(tok@),
{
    if !is_hex_byte_token(tok) {
        return None;
    }
    let hi = match hex_digit(tok[0]) {
        Some(d) => d,
        None => {
            return None;
        },
    };
    if tok.len() == 1 {
        return Some(hi);
    }
    let lo = match hex_digit(tok[1]) {
        Some(d) => d,
        None => {
            return None;
        },
    };
    Some(hi * 16 + lo)
}

// ---------------------------------------------------------------------------
// Rendering numbers
// ---------------------------------------------------------------------------

/// The decimal digit character for `d < 10`.
pub open spec fn decimal_digit(d: nat) -> char {
    (('0' as u32) + d) as char
}

/// The decimal representation of `n`, without leading zeros.
pub open spec fn decimal(n: nat) -> Seq<char>
    decreases n,
{
    if n < 10 {
        seq![decimal_digit(n)]
    } else {
        decimal(n / 10).push(decimal_digit(n % 10))
    }
}

/// The decimal representation of `n`, zero-padded to at least two digits.
pub open spec fn decimal_pad2(n: nat) -> Seq<char> {
    if n < 10 {
        seq!['0', decimal_digit(n)]
    } else {
        decimal(n)
    }
}

/// The upper-case hexadecimal digit character for `d < 16`.
pub open spec fn hex_upper_digit(d: nat) -> char {
    if d < 10 {
        (('0' as u32) + d) as char
    } else {
        (('A' as u32) + d - 10) as char
    }
}

/// The upper-case hexadecimal representation of `n`, zero-padded to four
/// digits.
pub open spec fn hex4_upper(n: nat) -> Seq<char> {
    seq![
        hex_upper_digit((n / 4096) % 16),
        hex_upper_digit((n / 256) % 16),
        hex_upper_digit((n / 16) % 16),
        hex_upper_digit(n % 16),
    ]
}

fn decimal_digit_char(d: u64) -> (c: char)
    requires
        d < 10,
    ensures
        c == decimal_digit(d as nat),
{
    ((d as u8) + 48) as char
}

/// The upper-case hexadecimal digit character for `d < 16`.
pub fn hex_upper_digit_char(d: u16) -> (c: char)
    requires
        d < 16,
    ensures
        c == hex_upper_digit(d as nat),
{
    if d < 10 {
        ((d as u8) + 48) as char
    } else {
        ((d as u8) + 55) as char
    }
}

/// Appends the decimal representation of `n` to `s`.
pub fn push_decimal(s: &mut String, n: u64)
    ensures
        final(s)@ == old(s)@ + decimal(n as nat),
    decreases n,
{
    if n >= 10 {
        push_decimal(s, n / 10);
    }
    push_char(s, decimal_digit_char(n % 10));
    assert(decimal(n as nat) == if n < 10 {
        seq![decimal_digit(n as nat)]
    } else {
        decimal((n / 10) as nat).push(decimal_digit((n % 10) as nat))
    });
}

/// Appends the decimal representation of `n`, zero-padded to two digits.
pub fn push_decimal_pad2(s: &mut String, n: u64)
    ensures
        final(s)@ == old(s)@ + decimal_pad2(n as nat),
{
    if n < 10 {
        push_char(s, '0');
        push_char(s, decimal_digit_char(n));
        assert(final(s)@ =~= old(s)@ + decimal_pad2(n as nat));
    } else {
        push_decimal(s, n);
    }
}

/// Appends the four-digit upper-case hexadecimal representation of `n`.
pub fn push_hex4_upper(s: &mut String, n: u16)
    ensures
        final(s)@ == old(s)@ + hex4_upper(n as nat),
{
    push_char(s, hex_upper_digit_char((n / 4096) % 16));
    push_char(s, hex_upper_digit_char((n / 256) % 16));
    push_char(s, hex_upper_digit_char((n / 16) % 16));
    push_char(s, hex_upper_digit_char(n % 16));
    assert(final(s)@ =~= old(s)@ + hex4_upper(n as nat));
}

/// The decimal representation of `n` as a new string.
pub fn decimal_string(n: u64) -> (r: String)
    ensures
        r@ == decimal(n as nat),
{
    let mut r = String::new();
    push_decimal(&mut r, n);
    assert(r@ =~= decimal(n as nat));
    r
}

// ---------------------------------------------------------------------------
// Joining
// ---------------------------------------------------------------------------

/// The strings of `parts` joined with `sep` between neighbours
/// (`[String]::join`).
pub open spec fn join(parts: Seq<Seq<char>>, sep: Seq<char>) -> Seq<char>
    decreases parts.len(),
{
    if parts.len() == 0 {
        Seq::empty()
    } else if parts.len() == 1 {
        parts[0]
    } else {
        join(parts.drop_last(), sep) + sep + parts.last()
    }
}

/// The views of a sequence of strings.
pub open spec fn strings_view(v: Seq<String>) -> Seq<Seq<char>> {
    v.map_values(|s: String| s@)
}

/// The strings of `parts` joined with single spaces.
pub fn join_with_space(parts: &Vec<String>) -> (r: String)
    ensures
        r@ == join(strings_view(parts@), seq![' ']),
{
    let ghost views = strings_view(parts@);
    let mut r = String::new();
    let mut i: usize = 0;
    while i < parts.len()
        invariant
            i <= parts@.len(),
            views == strings_view(parts@),
            r@ == join(views.take(i as int), seq![' ']),
        decreases parts.len() - i,
    {
        if i != 0 {
            push_char(&mut r, ' ');
        }
        r.append(parts[i].as_str());
        i += 1;
        assert(views.take(i as int).drop_last() =~= views.take(i - 1));
        assert(r@ =~= join(views.take(i as int), seq![' ']));
    }
    assert(views.take(parts.len() as int) =~= views);
    r
}

} // verus!
