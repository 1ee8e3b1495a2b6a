//! Remote configuration injector logic: locating the toolkit library among a
//! target's loaded modules, and assembling the byte-exact payload that stands
//! for the toolkit's internal string object inside the target's memory.
//!
//! Layouts are little-endian with 8-byte target pointers. The payload is
//! assembled locally but consumed inside the target, so every embedded
//! pointer field holds an address in the *remote* allocation, which callers
//! pass in explicitly as `base`.

use vstd::bytes::spec_u16_to_le_bytes;
use vstd::bytes::spec_u32_to_le_bytes;
use vstd::bytes::spec_u64_to_le_bytes;
use vstd::bytes::u16_to_le_bytes;
use vstd::bytes::u32_to_le_bytes;
use vstd::bytes::u64_to_le_bytes;
use vstd::prelude::*;

use crate::strings::encode_utf16_units;
use crate::strings::utf16_encode;

verus! {

/// The two supported generations of the toolkit's internal string layout.
#[derive(Debug, Clone, Copy, PartialEq, Eq, Structural)]
pub enum QtVersion {
    Qt5,
    Qt6,
}

/// The injector's failure taxonomy. Failures are independent per
/// configuration argument and non-fatal to the capture session.
#[derive(Debug, Clone, Copy, PartialEq, Eq, Structural)]
pub enum InjectError {
    /// No loaded module of the target matched the known toolkit libraries.
    ToolkitNotFound,
    /// Loading the toolkit library into the injector's own process failed.
    LibraryLoadError,
    /// The exported setter function was not found in the loaded library.
    ExportNotFound,
    /// The target process returned no usable remote allocation.
    AllocationError,
    /// The assembled payload would not fit the allocation made for it.
    SizeMismatch,
    /// The payload bytes could not be written into the target.
    WriteFailed,
    /// The remote thread running the setter could not be created.
    ThreadCreationError,
}

/// What each injector failure means, one line per variant.
pub open spec fn inject_error_text(e: InjectError) -> Seq<char> {
    match e {
        InjectError::ToolkitNotFound => "no toolkit core library is loaded in the target"@,
        InjectError::LibraryLoadError => "the toolkit library could not be loaded"@,
        InjectError::ExportNotFound => "the exported setter was not found in the library"@,
        InjectError::AllocationError => "the target returned no usable remote allocation"@,
        InjectError::SizeMismatch => "the assembled payload exceeds its allocation"@,
        InjectError::WriteFailed => "the payload could not be written into the target"@,
        InjectError::ThreadCreationError => "the remote thread could not be created"@,
    }
}

impl InjectError {
    /// A short description of the failure.
    pub fn message(&self) -> (m: &'static str)
        ensures
            m@ == inject_error_text(*self),
    {
        match *self {
            InjectError::ToolkitNotFound => "no toolkit core library is loaded in the target",
            InjectError::LibraryLoadError => "the toolkit library could not be loaded",
            InjectError::ExportNotFound => "the exported setter was not found in the library",
            InjectError::AllocationError => "the target returned no usable remote allocation",
            InjectError::SizeMismatch => "the assembled payload exceeds its allocation",
            InjectError::WriteFailed => "the payload could not be written into the target",
            InjectError::ThreadCreationError => "the remote thread could not be created",
        }
    }
}

/// The UTF-16 text of a payload as little-endian bytes, two per code unit.
pub open spec fn utf16_le_bytes(units: Seq<u16>) -> Seq<u8>
    decreases units.len(),
{
    if units.len() == 0 {
        Seq::empty()
    } else {
        spec_u16_to_le_bytes(units[0]) + utf16_le_bytes(units.drop_first())
    }
}

pub proof fn lemma_utf16_le_bytes_len(units: Seq<u16>)
    ensures
        utf16_le_bytes(units).len() == 2 * units.len(),
    decreases units.len(),
{
    vstd::bytes::lemma_auto_spec_u16_to_from_le_bytes();
    if units.len() > 0 {
        lemma_utf16_le_bytes_len(units.drop_first());
    }
}

proof fn lemma_utf16_le_bytes_push(units: Seq<u16>, u: u16)
    ensures
        utf16_le_bytes(units.push(u)) == utf16_le_bytes(units) + spec_u16_to_le_bytes(u),
    decreases units.len(),
{
    if units.len() == 0 {
        assert(units.push(u)[0] == u);
        assert(units.push(u).drop_first() =~= Seq::<u16>::empty());
        assert(utf16_le_bytes(Seq::<u16>::empty()) == Seq::<u8>::empty());
        assert(utf16_le_bytes(units.push(u)) == spec_u16_to_le_bytes(u) + utf16_le_bytes(
            Seq::<u16>::empty(),
        ));
        assert(utf16_le_bytes(units.push(u)) =~= utf16_le_bytes(units) + spec_u16_to_le_bytes(u));
    } else {
        assert(units.push(u).drop_first() =~= units.drop_first().push(u));
        lemma_utf16_le_bytes_push(units.drop_first(), u);
        assert(utf16_le_bytes(units.push(u)) =~= utf16_le_bytes(units) + spec_u16_to_le_bytes(u));
    }
}

/// The size in bytes of a remote allocation able to hold a payload of
/// `n_units` code units: the version-specific fixed overhead plus two bytes
/// per unit.
pub open spec fn allocation_size_spec(v: QtVersion, n_units: nat) -> nat {
    match v {
        QtVersion::Qt5 => 34 + 2 * n_units,
        QtVersion::Qt6 => 24 + 2 * n_units,
    }
}

/// The version A payload: a header holding a remote pointer to its own
/// typed-array-data field (8 bytes past `base`), a reference count of -1, the
/// unit count, zero flags, 64-bit padding, and the byte offset from the
/// typed-array-data field to the units; then the units; then a trailing NUL
/// unit.
pub open spec fn qt5_payload(base: u64, units: Seq<u16>) -> Seq<u8> {
    spec_u64_to_le_bytes((base + 8) as u64) + spec_u32_to_le_bytes(0xFFFF_FFFF)
        + spec_u32_to_le_bytes(units.len() as u32) + spec_u32_to_le_bytes(0)
        + spec_u32_to_le_bytes(0) + spec_u64_to_le_bytes(24) + utf16_le_bytes(units) + seq![
        0u8,
        0u8,
    ]
}

/// The version B payload: the units first, then a trailing structure of a
/// zero header pointer, the data pointer (the remote allocation's base, where
/// the units lie), and the unit count.
pub open spec fn qt6_payload(base: u64, units: Seq<u16>) -> Seq<u8> {
    utf16_le_bytes(units) + spec_u64_to_le_bytes(0) + spec_u64_to_le_bytes(base)
        + spec_u64_to_le_bytes(units.len() as u64)
}

pub open spec fn payload_spec(v: QtVersion, base: u64, units: Seq<u16>) -> Seq<u8> {
    match v {
        QtVersion::Qt5 => qt5_payload(base, units),
        QtVersion::Qt6 => qt6_payload(base, units),
    }
}

/// The remote address of the string object itself, handed to the exported
/// setter: version A's object is the payload's head, version B's is the
/// trailing structure after the units.
pub open spec fn start_addr_spec(v: QtVersion, base: u64, n_units: nat) -> int {
    match v {
        QtVersion::Qt5 => base as int,
        QtVersion::Qt6 => base + 2 * n_units,
    }
}

/// The assembled payload's length equals the allocation-size formula of its
/// version, whatever the unit count.
pub proof fn lemma_payload_len(v: QtVersion, base: u64, units: Seq<u16>)
    ensures
        payload_spec(v, base, units).len() == allocation_size_spec(v, units.len()),
{
    vstd::bytes::lemma_auto_spec_u16_to_from_le_bytes();
    vstd::bytes::lemma_auto_spec_u32_to_from_le_bytes();
    vstd::bytes::lemma_auto_spec_u64_to_from_le_bytes();
    lemma_utf16_le_bytes_len(units);
}

impl QtVersion {
    /// Bytes to allocate in the target for a payload of `n_units` code units.
    pub fn allocation_size(&self, n_units: usize) -> (r: usize)
        requires
            2 * n_units + 34 <= usize::MAX,
        ensures
            r == allocation_size_spec(*self, n_units as nat),
    {
        match *self {
            QtVersion::Qt5 => 34 + 2 * n_units,
            QtVersion::Qt6 => 24 + 2 * n_units,
        }
    }

    /// Assemble the payload for text already encoded as UTF-16 `units`, to be
    /// written verbatim at remote address `base`. Returns the payload bytes
    /// and the remote address of the string object to hand to the setter.
    pub fn make_qstring(&self, base: u64, units: &[u16]) -> (r: (Vec<u8>, u64))
        requires
            units@.len() <= 0x0FFF_FFFF,
            base + allocation_size_spec(*self, units@.len()) <= u64::MAX,
        ensures
            r.0@ == payload_spec(*self, base, units@),
            r.0@.len() == allocation_size_spec(*self, units@.len()),
            r.1 == start_addr_spec(*self, base, units@.len()),
    {
        proof {
            lemma_payload_len(*self, base, units@);
        }
        match *self {
            QtVersion::Qt5 => Self::make_qt5string(base, units),
            QtVersion::Qt6 => Self::make_qt6string(base, units),
        }
    }

    fn make_qt5string(base: u64, units: &[u16]) -> (r: (Vec<u8>, u64))
        requires
            units@.len() <= 0x0FFF_FFFF,
            base + allocation_size_spec(QtVersion::Qt5, units@.len()) <= u64::MAX,
        ensures
            r.0@ == qt5_payload(base, units@),
            r.1 == base,
    {
        let ghost header = spec_u64_to_le_bytes((base + 8) as u64) + spec_u32_to_le_bytes(
            0xFFFF_FFFF,
        ) + spec_u32_to_le_bytes(units@.len() as u32) + spec_u32_to_le_bytes(0)
            + spec_u32_to_le_bytes(0) + spec_u64_to_le_bytes(24);
        let mut buf = u64_to_le_bytes(base + 8);
        let mut part = u32_to_le_bytes(0xFFFF_FFFF);
        buf.append(&mut part);
        let mut part = u32_to_le_bytes(units.len() as u32);
        buf.append(&mut part);
        let mut part = u32_to_le_bytes(0);
        buf.append(&mut part);
        let mut part = u32_to_le_bytes(0);
        buf.append(&mut part);
        let mut part = u64_to_le_bytes(24);
        buf.append(&mut part);
        proof {
            assert(buf@ =~= header);
        }
        let buf = Self::append_units(buf, units);
        let mut buf = buf;
        buf.push(0);
        buf.push(0);
        proof {
            assert(buf@ =~= qt5_payload(base, units@));
        }
        (buf, base)
    }

    fn make_qt6string(base: u64, units: &[u16]) -> (r: (Vec<u8>, u64))
        requires
            units@.len() <= 0x0FFF_FFFF,
            base + allocation_size_spec(QtVersion::Qt6, units@.len()) <= u64::MAX,
        ensures
            r.0@ == qt6_payload(base, units@),
            r.1 == base + 2 * units@.len(),
    {
        let buf: Vec<u8> = Vec::new();
        let buf = Self::append_units(buf, units);
        let mut buf = buf;
        let mut part = u64_to_le_bytes(0);
        buf.append(&mut part);
        let mut part = u64_to_le_bytes(base);
        buf.append(&mut part);
        let mut part = u64_to_le_bytes(units.len() as u64);
        buf.append(&mut part);
        proof {
            assert(buf@ =~= qt6_payload(base, units@));
        }
        let n64 = units.len() as u64;
        (buf, base + 2 * n64)
    }

    /// Append the little-endian bytes of every unit to `buf`.
    fn append_units(buf: Vec<u8>, units: &[u16]) -> (r: Vec<u8>)
        requires
            buf@.len() + 2 * units@.len() <= usize::MAX,
        ensures
            r@ == buf@ + utf16_le_bytes(units@),
    {
        let mut buf = buf;
        let ghost head = buf@;
        let mut i: usize = 0;
        proof {
            assert(units@.take(0) =~= Seq::<u16>::empty());
            assert(head + utf16_le_bytes(units@.take(0)) =~= head);
        }
        while i < units.len()
            invariant
                i <= units@.len(),
                head.len() + 2 * units@.len() <= usize::MAX,
                buf@ == head + utf16_le_bytes(units@.take(i as int)),
            decreases units@.len() - i,
        {
            proof {
                lemma_utf16_le_bytes_len(units@.take(i as int));
            }
            let mut part = u16_to_le_bytes(units[i]);
            buf.append(&mut part);
            proof {
                assert(units@.take(i + 1 as int) =~= units@.take(i as int).push(units@[i as int]));
                lemma_utf16_le_bytes_push(units@.take(i as int), units@[i as int]);
                assert(buf@ =~= head + utf16_le_bytes(units@.take(i + 1 as int)));
            }
            i = i + 1;
        }
        proof {
            assert(units@.take(units@.len() as int) =~= units@);
        }
        buf
    }
}

/// Encode `text` and assemble its payload for remote address `base`. `None`
/// only when the encoded text is too long for the layout's counters or the
/// allocation would run past the end of the remote address space.
pub fn build_qstring_payload(version: QtVersion, base: u64, text: &str) -> (r: Option<
    (Vec<u8>, u64),
>)
    ensures
        match r {
            Some(p) => {
                &&& utf16_encode(text@).len() <= 0x0FFF_FFFF
                &&& base + allocation_size_spec(version, utf16_encode(text@).len()) <= u64::MAX
                &&& p.0@ == payload_spec(version, base, utf16_encode(text@))
                &&& p.0@.len() == allocation_size_spec(version, utf16_encode(text@).len())
                &&& p.1 == start_addr_spec(version, base, utf16_encode(text@).len())
            },
            None => utf16_encode(text@).len() > 0x0FFF_FFFF || base + allocation_size_spec(
                version,
                utf16_encode(text@).len(),
            ) > u64::MAX,
        },
{
    let units = encode_utf16_units(text);
    if units.len() > 0x0FFF_FFFF {
        return None;
    }
    let n64 = units.len() as u64;
    let alloc64: u64 = match version {
        QtVersion::Qt5 => 34 + 2 * n64,
        QtVersion::Qt6 => 24 + 2 * n64,
    };
    if base > u64::MAX - alloc64 {
        return None;
    }
    Some(version.make_qstring(base, units.as_slice()))
}

/// Encode `text` and give the size of the remote allocation its payload
/// needs. `None` only when the encoded text is too long for the layout's
/// counters.
pub fn payload_allocation_size(version: QtVersion, text: &str) -> (r: Option<usize>)
    ensures
        match r {
            Some(n) => utf16_encode(text@).len() <= 0x0FFF_FFFF && n == allocation_size_spec(
                version,
                utf16_encode(text@).len(),
            ),
            None => utf16_encode(text@).len() > 0x0FFF_FFFF,
        },
{
    let units = encode_utf16_units(text);
    if units.len() > 0x0FFF_FFFF {
        return None;
    }
    Some(version.allocation_size(units.len()))
}

/// A known on-disk file name of the toolkit's core library: `Qt<digit>Core`,
/// a `d` suffix for its debug build, and the `.dll` extension.
pub open spec fn qtcore_suffix(digit: u8, debug_build: bool) -> Seq<u8> {
    let stem = seq!['Q' as u8, 't' as u8, digit, 'C' as u8, 'o' as u8, 'r' as u8, 'e' as u8];
    let tail = seq!['.' as u8, 'd' as u8, 'l' as u8, 'l' as u8];
    if debug_build {
        stem + seq!['d' as u8] + tail
    } else {
        stem + tail
    }
}

/// The toolkit generation implied by a module's on-disk path, by file-name
/// suffix; version B's library names are tried first.
pub open spec fn qt_version_of_path(path: Seq<u8>) -> Option<QtVersion> {
    if qtcore_suffix('6' as u8, false).is_suffix_of(path) || qtcore_suffix(
        '6' as u8,
        true,
    ).is_suffix_of(path) {
        Some(QtVersion::Qt6)
    } else if qtcore_suffix('5' as u8, false).is_suffix_of(path) || qtcore_suffix(
        '5' as u8,
        true,
    ).is_suffix_of(path) {
        Some(QtVersion::Qt5)
    } else {
        None
    }
}

fn qtcore_suffix_bytes(digit: u8, debug_build: bool) -> (r: Vec<u8>)
    ensures
        r@ == qtcore_suffix(digit, debug_build),
{
    let mut v: Vec<u8> = Vec::new();
    v.push('Q' as u8);
    v.push('t' as u8);
    v.push(digit);
    v.push('C' as u8);
    v.push('o' as u8);
    v.push('r' as u8);
    v.push('e' as u8);
    if debug_build {
        v.push('d' as u8);
    }
    v.push('.' as u8);
    v.push('d' as u8);
    v.push('l' as u8);
    v.push('l' as u8);
    proof {
        assert(v@ =~= qtcore_suffix(digit, debug_build));
    }
    v
}

/// Byte-by-byte suffix test.
fn bytes_ends_with(s: &[u8], suffix: &[u8]) -> (r: bool)
    ensures
        r == suffix@.is_suffix_of(s@),
{
    let n = suffix.len();
    if n > s.len() {
        return false;
    }
    let off = s.len() - n;
    let mut i: usize = 0;
    while i < n
        invariant
            s@.len() <= usize::MAX,
            n == suffix@.len(),
            off == s@.len() - n,
            0 <= off,
            i <= n,
            forall|j: int| 0 <= j < i ==> s@[off + j] == suffix@[j],
        decreases n - i,
    {
        if s[off + i] != suffix[i] {
            proof {
                assert(s@.subrange(off as int, s@.len() as int)[i as int] != suffix@[i as int]);
            }
            return false;
        }
        i = i + 1;
    }
    proof {
        assert(suffix@ =~= s@.subrange(off as int, s@.len() as int));
    }
    true
}

/// The toolkit generation implied by one module path, if any.
pub fn qtcore_version(path: &[u8]) -> (r: Option<QtVersion>)
    ensures
        r == qt_version_of_path(path@),
{
    let qt6 = qtcore_suffix_bytes('6' as u8, false);
    let qt6d = qtcore_suffix_bytes('6' as u8, true);
    if bytes_ends_with(path, qt6.as_slice()) || bytes_ends_with(path, qt6d.as_slice()) {
        return Some(QtVersion::Qt6);
    }
    let qt5 = qtcore_suffix_bytes('5' as u8, false);
    let qt5d = qtcore_suffix_bytes('5' as u8, true);
    if bytes_ends_with(path, qt5.as_slice()) || bytes_ends_with(path, qt5d.as_slice()) {
        return Some(QtVersion::Qt5);
    }
    None
}

/// Find the toolkit's core library among a target's loaded module paths:
/// the first path whose file name is a known library name wins, and implies
/// the ABI version. `ToolkitNotFound` exactly when no path matches.
pub fn find_qtcore(paths: &Vec<Vec<u8>>) -> (r: Result<(usize, QtVersion), InjectError>)
    ensures
        match r {
            Ok(found) => {
                &&& found.0 < paths@.len()
                &&& qt_version_of_path(paths@[found.0 as int]@) == Some(found.1)
                &&& forall|j: int| 0 <= j < found.0 ==> qt_version_of_path(paths@[j]@) is None
            },
            Err(e) => {
                &&& e == InjectError::ToolkitNotFound
                &&& forall|j: int| 0 <= j < paths@.len() ==> qt_version_of_path(paths@[j]@) is None
            },
        },
{
    let mut i: usize = 0;
    while i < paths.len()
        invariant
            i <= paths@.len(),
            forall|j: int| 0 <= j < i ==> qt_version_of_path(paths@[j]@) is None,
        decreases paths@.len() - i,
    {
        match qtcore_version(paths[i].as_slice()) {
            Some(v) => {
                return Ok((i, v));
            },
            None => {},
        }
        i = i + 1;
    }
    Err(InjectError::ToolkitNotFound)
}

} // verus!
