//! Decoding of remote string buffers.
//!
//! The target stores some names as narrow single-byte text and others as 16-bit
//! little-endian code units, with no out-of-band tag; layout is inferred from
//! content. The policy: scan for a single zero byte and, if one is found, try
//! the prefix before it as narrow text; a buffer with no zero byte at all is
//! taken as the narrow decode having failed because of embedded wide
//! characters. When narrow fails either way, re-interpret the buffer as 16-bit
//! units up to the first run of three consecutive zero bytes, which anchors on
//! a 16-bit terminator despite the byte-level scan's step-size mismatch. A
//! buffer that fits neither shape is a decode error.

use vstd::prelude::*;
use vstd::utf8::{decode_utf8, valid_utf8};

verus! {

/// The index of the first zero byte, or the length if there is none.
pub open spec fn first_nul_from(b: Seq<u8>, i: int) -> int
    decreases b.len() - i,
    when 0 <= i <= b.len()
{
    if i >= b.len() {
        b.len() as int
    } else if b[i] == 0 {
        i
    } else {
        first_nul_from(b, i + 1)
    }
}

/// The index of the first zero byte, or the length if there is none.
pub open spec fn first_nul(b: Seq<u8>) -> int {
    first_nul_from(b, 0)
}

/// The start of the first run of three consecutive zero bytes at or after `i`.
pub open spec fn triple_zero_from(b: Seq<u8>, i: int) -> Option<int>
    decreases b.len() - i,
    when 0 <= i
{
    if i + 3 > b.len() {
        None
    } else if b[i] == 0 && b[i + 1] == 0 && b[i + 2] == 0 {
        Some(i)
    } else {
        triple_zero_from(b, i + 1)
    }
}

/// The start of the first run of three consecutive zero bytes, if any.
pub open spec fn first_triple_zero(b: Seq<u8>) -> Option<int> {
    triple_zero_from(b, 0)
}

/// The bytes paired into 16-bit little-endian units; a dangling odd byte is dropped.
pub open spec fn wide_units(b: Seq<u8>) -> Seq<u16>
    decreases b.len(),
{
    if b.len() < 2 {
        Seq::empty()
    } else {
        seq![(b[0] + 256 * b[1]) as u16] + wide_units(b.skip(2))
    }
}

pub proof fn lemma_wide_units(b: Seq<u8>)
    ensures
        wide_units(b).len() == b.len() as int / 2,
        forall|k: int|
            0 <= k < wide_units(b).len() ==> wide_units(b)[k] == (b[2 * k] + 256 * b[2 * k + 1]) as u16,
    decreases b.len(),
{
    if b.len() >= 2 {
        lemma_wide_units(b.skip(2));
        assert forall|k: int| 0 <= k < wide_units(b).len() implies wide_units(b)[k] == (b[2 * k]
            + 256 * b[2 * k + 1]) as u16 by {
            if k > 0 {
                assert(wide_units(b)[k] == wide_units(b.skip(2))[k - 1]);
                assert(b.skip(2)[2 * (k - 1)] == b[2 * k]);
                assert(b.skip(2)[2 * (k - 1) + 1] == b[2 * k + 1]);
            }
        }
    }
}

/// What `String::from_utf16` decodes the given 16-bit units to, if they are well
/// formed; the result is a function of the units alone.
pub uninterp spec fn utf16_decode(units: Seq<u16>) -> Option<Seq<char>>;

/// True when every unit is a seven-bit value.
pub open spec fn all_seven_bit(units: Seq<u16>) -> bool {
    forall|k: int| 0 <= k < units.len() ==> units[k] < 0x80
}

/// Seven-bit units read as characters, one for one.
pub open spec fn seven_bit_chars(units: Seq<u16>) -> Seq<char> {
    units.map_values(|u: u16| ((u as u8) as char))
}

/// The narrow interpretation of a buffer: the prefix before the first zero
/// byte, decoded as UTF-8 if well formed. A buffer with no zero byte at all is
/// not narrow text: its terminator, if any, must be a 16-bit one.
pub open spec fn spec_decode_narrow(b: Seq<u8>) -> Option<Seq<char>> {
    if first_nul(b) == b.len() {
        None
    } else {
        let p = b.take(first_nul(b));
        if valid_utf8(p) {
            Some(decode_utf8(p))
        } else {
            None
        }
    }
}

/// The wide interpretation of a buffer: the bytes before the first run of three
/// zero bytes, paired into 16-bit little-endian units and decoded; `None` when no
/// such run exists or the units are not well formed.
pub open spec fn spec_decode_wide(b: Seq<u8>) -> Option<Seq<char>> {
    match first_triple_zero(b) {
        None => None,
        Some(j) => utf16_decode(wide_units(b.take(j))),
    }
}

/// The full decode policy: narrow first, then wide.
pub open spec fn spec_decode_string(b: Seq<u8>) -> Option<Seq<char>> {
    match spec_decode_narrow(b) {
        Some(s) => Some(s),
        None => spec_decode_wide(b),
    }
}

/// Relies on `str::from_utf8`, which succeeds exactly on well-formed UTF-8 and
/// yields its decoded characters, and on `str::to_owned` to copy them out.
#[verifier::external_body]
fn utf8_to_string(b: &[u8]) -> (r: Option<String>)
    ensures
        r is Some <==> valid_utf8(b@),
        r matches Some(s) ==> s@ == decode_utf8(b@),
{
    match core::str::from_utf8(b) {
        Ok(s) => Some(s.to_owned()),
        Err(_) => None,
    }
}

/// Relies on `String::from_utf16`: the result depends on the units alone, and
/// units below 0x80 are the corresponding characters, one for one.
#[verifier::external_body]
fn utf16_to_string(units: &[u16]) -> (r: Option<String>)
    ensures
        r matches Some(s) ==> utf16_decode(units@) == Some(s@),
        r is None ==> utf16_decode(units@) is None,
        r is Some || !all_seven_bit(units@),
        r matches Some(s) ==> (all_seven_bit(units@) ==> s@ == seven_bit_chars(units@)),
{
    match String::from_utf16(units) {
        Ok(s) => Some(s),
        Err(_) => None,
    }
}

/// Decode the prefix before the first zero byte as narrow text; `None` when
/// the buffer holds no zero byte.
pub fn decode_narrow(b: &[u8]) -> (r: Option<String>)
    ensures
        r matches Some(s) ==> spec_decode_narrow(b@) == Some(s@),
        r is None ==> spec_decode_narrow(b@) is None,
{
    let n = b.len();
    let mut i: usize = 0;
    while i < n && b[i] != 0
        invariant
            0 <= i <= n,
            n == b@.len(),
            first_nul(b@) == first_nul_from(b@, i as int),
        decreases n - i,
    {
        i = i + 1;
    }
    assert(first_nul(b@) == i as int);
    if i == n {
        return None;
    }
    let prefix = vstd::slice::slice_subrange(b, 0, i);
    assert(prefix@ =~= b@.take(first_nul(b@)));
    utf8_to_string(prefix)
}

/// Decode the buffer as wide text up to the first run of three zero bytes.
pub fn decode_wide(b: &[u8]) -> (r: Option<String>)
    ensures
        r matches Some(s) ==> spec_decode_wide(b@) == Some(s@),
        r is None ==> spec_decode_wide(b@) is None,
{
    let n = b.len();
    if n < 3 {
        assert(first_triple_zero(b@) is None);
        return None;
    }
    let mut i: usize = 0;
    while i <= n - 3 && !(b[i] == 0 && b[i + 1] == 0 && b[i + 2] == 0)
        invariant
            0 <= i <= n - 2,
            3 <= n == b@.len(),
            first_triple_zero(b@) == triple_zero_from(b@, i as int),
        decreases n - i,
    {
        i = i + 1;
    }
    if i > n - 3 {
        assert(first_triple_zero(b@) is None);
        return None;
    }
    assert(first_triple_zero(b@) == Some(i as int));
    let ghost w = b@.take(i as int);
    proof {
        lemma_wide_units(w);
    }
    let mut units: Vec<u16> = Vec::new();
    let mut k: usize = 0;
    while 2 * k + 1 < i
        invariant
            0 <= k,
            2 * k <= i,
            i + 3 <= n == b@.len(),
            w == b@.take(i as int),
            wide_units(w).len() == i as int / 2,
            forall|m: int|
                0 <= m < wide_units(w).len() ==> wide_units(w)[m] == (w[2 * m] + 256 * w[2 * m
                    + 1]) as u16,
            units@.len() == k as int,
            forall|m: int| 0 <= m < k ==> units@[m] == wide_units(w)[m],
        decreases i - 2 * k,
    {
        let lo = b[2 * k];
        let hi = b[2 * k + 1];
        let u: u16 = lo as u16 + 256 * (hi as u16);
        assert(w[2 * k as int] == b@[2 * k as int] && w[2 * k + 1 as int] == b@[2 * k + 1 as int]);
        units.push(u);
        k = k + 1;
    }
    assert(k as int == i as int / 2);
    assert(units@ =~= wide_units(w));
    utf16_to_string(units.as_slice())
}

/// Decode a remote string buffer: narrow first, then wide.
pub fn decode_string_buffer(b: &[u8]) -> (r: Option<String>)
    ensures
        r matches Some(s) ==> spec_decode_string(b@) == Some(s@),
        r is None ==> spec_decode_string(b@) is None,
{
    match decode_narrow(b) {
        Some(s) => Some(s),
        None => decode_wide(b),
    }
}

/// Narrow text that is pure seven-bit bytes is well formed and decodes to itself,
/// character for character.
pub proof fn lemma_ascii_bytes_decode(b: Seq<u8>)
    requires
        forall|k: int| 0 <= k < b.len() ==> b[k] < 0x80,
    ensures
        valid_utf8(b),
        decode_utf8(b) == b.map_values(|x: u8| (x as char)),
    decreases b.len(),
{
    if b.len() > 0 {
        assert(vstd::utf8::is_leading_byte_width_1(b[0]));
        assert(vstd::utf8::valid_first_scalar(b));
        assert(vstd::utf8::length_of_first_scalar(b) == 1);
        let b0 = b[0];
        assert(b0 & 0x7F == b0) by (bit_vector)
            requires
                b0 < 0x80,
        ;
        assert(vstd::utf8::pop_first_scalar(b) =~= b.drop_first());
        lemma_ascii_bytes_decode(b.drop_first());
        assert(vstd::utf8::decode_first_scalar(b) == b[0] as u32);
        assert(decode_utf8(b) == seq![(b[0] as u32) as char] + decode_utf8(b.drop_first()));
        assert(decode_utf8(b) =~= b.map_values(|x: u8| (x as char)));
    } else {
        assert(decode_utf8(b) =~= b.map_values(|x: u8| (x as char)));
    }
}

} // verus!
