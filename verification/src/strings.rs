//! Wide (16-bit-unit) string utilities: UTF-16 encoding and decoding,
//! assembling code units from raw bytes read out of the target process,
//! the narrow/wide classification heuristic, and NUL-terminated
//! wide-string comparison.

use vstd::prelude::*;

verus! {

/// The UTF-16 code units of a single character: one unit below `0x10000`,
/// a surrogate pair at or above it.
pub open spec fn utf16_units_of_char(c: char) -> Seq<u16> {
    let u = c as u32;
    if u < 0x10000 {
        seq![u as u16]
    } else {
        seq![
            (0xD800 + (u - 0x10000) / 0x400) as u16,
            (0xDC00 + (u - 0x10000) % 0x400) as u16,
        ]
    }
}

/// The UTF-16 encoding of a character sequence.
pub open spec fn utf16_encode(s: Seq<char>) -> Seq<u16>
    decreases s.len(),
{
    if s.len() == 0 {
        Seq::empty()
    } else {
        utf16_units_of_char(s[0]) + utf16_encode(s.drop_first())
    }
}

pub open spec fn is_high_surrogate(u: u16) -> bool {
    0xD800 <= u <= 0xDBFF
}

pub open spec fn is_low_surrogate(u: u16) -> bool {
    0xDC00 <= u <= 0xDFFF
}

/// Lossy UTF-16 decoding: a well-formed surrogate pair becomes one
/// supplementary character, an unpaired surrogate becomes the replacement
/// character, and any other unit stands for itself.
pub open spec fn utf16_decode(units: Seq<u16>) -> Seq<char>
    decreases units.len(),
{
    if units.len() == 0 {
        Seq::empty()
    } else if is_high_surrogate(units[0]) && units.len() >= 2 && is_low_surrogate(units[1]) {
        let scalar = 0x10000 + (units[0] - 0xD800) * 0x400 + (units[1] - 0xDC00);
        seq![(scalar as u32) as char] + utf16_decode(units.skip(2))
    } else if is_high_surrogate(units[0]) || is_low_surrogate(units[0]) {
        seq!['\u{FFFD}'] + utf16_decode(units.skip(1))
    } else {
        seq![(units[0] as u32) as char] + utf16_decode(units.skip(1))
    }
}

/// Relies on `widestring::encode_utf16`: the standard UTF-16 encoding of
/// the characters, one code unit below `0x10000` and a surrogate pair above.
#[verifier::external_body]
pub(crate) fn encode_utf16_units(s: &str) -> (r: Vec<u16>)
    ensures
        r@ == utf16_encode(s@),
{
    widestring::encode_utf16(s.chars()).collect()
}

/// Relies on `widestring::decode_utf16_lossy`: core's UTF-16 decoding with
/// every unpaired surrogate replaced by U+FFFD.
#[verifier::external_body]
pub(crate) fn decode_utf16_lossy_units(units: &[u16]) -> (r: String)
    ensures
        r@ == utf16_decode(units@),
{
    widestring::decode_utf16_lossy(units.iter().copied()).collect()
}

/// The 16-bit code units held by a little-endian byte buffer, two bytes per
/// unit; a trailing odd byte is dropped.
pub open spec fn units_of_bytes(bytes: Seq<u8>) -> Seq<u16> {
    Seq::new((bytes.len() / 2) as nat, |i: int| (bytes[2 * i] + bytes[2 * i + 1] * 0x100) as u16)
}

/// Reassemble the 16-bit code units out of the raw little-endian bytes that
/// were read from the target's address space.
pub fn units_from_bytes(bytes: &[u8]) -> (r: Vec<u16>)
    ensures
        r@ == units_of_bytes(bytes@),
{
    let n_units = bytes.len() / 2;
    let mut r: Vec<u16> = Vec::new();
    let mut i: usize = 0;
    while i < n_units
        invariant
            bytes@.len() <= usize::MAX,
            n_units == bytes@.len() / 2,
            i <= n_units,
            r@ == units_of_bytes(bytes@).take(i as int),
        decreases n_units - i,
    {
        proof {
            assert(2 * i + 1 < bytes@.len());
        }
        let lo = bytes[2 * i] as u16;
        let hi = bytes[2 * i + 1] as u16;
        r.push(lo + hi * 0x100);
        proof {
            assert(r@ =~= units_of_bytes(bytes@).take(i + 1 as int));
        }
        i = i + 1;
    }
    proof {
        assert(r@ =~= units_of_bytes(bytes@));
    }
    r
}

/// The code units that remain after every trailing NUL unit is removed.
pub open spec fn strip_trailing_nuls(units: Seq<u16>) -> Seq<u16>
    decreases units.len(),
{
    if units.len() > 0 && units[units.len() - 1] == 0 {
        strip_trailing_nuls(units.drop_last())
    } else {
        units
    }
}

/// Decode a captured buffer of 16-bit units to text: trailing NUL units are
/// dropped, and invalid code points decode to the replacement character.
pub fn decode_line(units: &[u16]) -> (r: String)
    ensures
        r@ == utf16_decode(strip_trailing_nuls(units@)),
{
    let mut k = units.len();
    proof {
        assert(units@.take(k as int) =~= units@);
    }
    while k > 0 && units[k - 1] == 0
        invariant
            k <= units@.len(),
            strip_trailing_nuls(units@) == strip_trailing_nuls(units@.take(k as int)),
        decreases k,
    {
        proof {
            assert(units@.take(k as int).drop_last() =~= units@.take(k - 1 as int));
        }
        k = k - 1;
    }
    proof {
        if k > 0 {
            assert(strip_trailing_nuls(units@.take(k as int)) == units@.take(k as int));
        } else {
            assert(units@.take(0) =~= Seq::<u16>::empty());
        }
    }
    let kept = vstd::slice::slice_subrange(units, 0, k);
    decode_utf16_lossy_units(kept)
}

/// The narrow/wide classification heuristic: a byte buffer is taken for a
/// wide string when its bytes at odd positions, among the first ten of them,
/// are all zero. Buffers too short to have any odd position classify wide.
pub open spec fn wide_heuristic(bytes: Seq<u8>) -> bool {
    forall|i: int| 0 <= i < bytes.len() && i < 20 && i % 2 == 1 ==> bytes[i] == 0
}

/// Classify a raw capture as wide or narrow by the heuristic.
pub fn is_wide_string(bytes: &[u8]) -> (r: bool)
    ensures
        r == wide_heuristic(bytes@),
{
    let mut i: usize = 1;
    while i < 20 && i < bytes.len()
        invariant
            i % 2 == 1,
            forall|j: int| 0 <= j < bytes@.len() && j < i && j % 2 == 1 ==> bytes@[j] == 0,
        decreases 21 - i,
    {
        if bytes[i] != 0 {
            return false;
        }
        i = i + 2;
    }
    true
}

/// The unit sequence behind an optional wide-string slice.
pub open spec fn opt_units(o: Option<&[u16]>) -> Option<Seq<u16>> {
    match o {
        Some(s) => Some(s@),
        None => None,
    }
}

/// The units before the first NUL; the whole sequence when no NUL occurs.
pub open spec fn wide_nul_prefix(s: Seq<u16>) -> Seq<u16> {
    match s.index_of_first(0u16) {
        Some(i) => s.take(i),
        None => s,
    }
}

/// Equality of NUL-terminated wide strings, `None` standing for a null
/// pointer: null equals only null, and two non-null strings are equal when
/// the units before their first NULs agree.
pub open spec fn wstr_eq_spec(lhs: Option<Seq<u16>>, rhs: Option<Seq<u16>>) -> bool {
    match (lhs, rhs) {
        (Some(l), Some(r)) => wide_nul_prefix(l) == wide_nul_prefix(r),
        (None, None) => true,
        _ => false,
    }
}

/// Compare two optional NUL-terminated wide strings, unit by unit up to the
/// first NUL of either.
pub fn wstr_eq(lhs: Option<&[u16]>, rhs: Option<&[u16]>) -> (r: bool)
    requires
        lhs matches Some(l) ==> l@.contains(0u16),
        rhs matches Some(r) ==> r@.contains(0u16),
    ensures
        r == wstr_eq_spec(opt_units(lhs), opt_units(rhs)),
{
    match (lhs, rhs) {
        (Some(l), Some(r)) => {
            proof {
                l@.index_of_first_ensures(0u16);
                r@.index_of_first_ensures(0u16);
            }
            let ghost fl = l@.index_of_first(0u16).unwrap();
            let ghost fr = r@.index_of_first(0u16).unwrap();
            let mut i: usize = 0;
            loop
                invariant
                    opt_units(lhs) == Some(l@),
                    opt_units(rhs) == Some(r@),
                    l@.contains(0u16),
                    r@.contains(0u16),
                    l@.index_of_first(0u16) == Some(fl),
                    r@.index_of_first(0u16) == Some(fr),
                    0 <= fl < l@.len(),
                    0 <= fr < r@.len(),
                    l@[fl] == 0u16,
                    r@[fr] == 0u16,
                    forall|j: int| 0 <= j < fl ==> l@[j] != 0u16,
                    forall|j: int| 0 <= j < fr ==> r@[j] != 0u16,
                    i <= fl,
                    i <= fr,
                    forall|j: int| 0 <= j < i ==> l@[j] == r@[j],
                decreases l@.len() - i,
            {
                if l[i] == r[i] {
                    if l[i] == 0 {
                        proof {
                            assert(fl == i && fr == i);
                            assert(l@.take(fl) =~= r@.take(fr));
                        }
                        return true;
                    }
                    i = i + 1;
                } else {
                    proof {
                        if fl == i {
                            assert(wide_nul_prefix(l@).len() == i);
                            assert(fr > i);
                            assert(wide_nul_prefix(r@).len() > i);
                        } else if fr == i {
                            assert(wide_nul_prefix(l@).len() > i);
                        } else {
                            assert(wide_nul_prefix(l@)[i as int] != wide_nul_prefix(r@)[i as int]);
                        }
                    }
                    return false;
                }
            }
        },
        (None, None) => true,
        _ => false,
    }
}

/// The comparison is reflexive.
pub proof fn lemma_wstr_eq_reflexive(s: Option<Seq<u16>>)
    ensures
        wstr_eq_spec(s, s),
{
}

/// The comparison is symmetric.
pub proof fn lemma_wstr_eq_symmetric(a: Option<Seq<u16>>, b: Option<Seq<u16>>)
    ensures
        wstr_eq_spec(a, b) == wstr_eq_spec(b, a),
{
}

/// Units after the first NUL of an operand never change the comparison.
pub proof fn lemma_wstr_eq_ignores_tail(s: Seq<u16>, tail: Seq<u16>, other: Option<Seq<u16>>)
    requires
        s.contains(0u16),
    ensures
        wstr_eq_spec(Some(s + tail), other) == wstr_eq_spec(Some(s), other),
{
    s.index_of_first_ensures(0u16);
    (s + tail).index_of_first_ensures(0u16);
    let fs = s.index_of_first(0u16).unwrap();
    assert((s + tail)[fs] == 0u16);
    assert((s + tail).contains(0u16));
    let ft = (s + tail).index_of_first(0u16).unwrap();
    assert(ft <= fs);
    assert(ft >= fs) by {
        if ft < fs {
            assert((s + tail)[ft] == s[ft]);
        }
    }
    assert(wide_nul_prefix(s + tail) =~= wide_nul_prefix(s));
}

} // verus!
