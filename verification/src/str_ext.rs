//! Prefix tests on wide strings.

use vstd::prelude::*;

verus! {

/// A wide string that can be asked whether it begins with a needle.
pub trait WStrExt {
    /// The code units of the wide string.
    spec fn units(&self) -> Seq<u16>;

    /// Whether the string begins with `needle`.
    fn starts_with(&self, needle: &[u16]) -> (r: bool)
        ensures
            r == needle@.is_prefix_of(self.units()),
    ;
}

impl WStrExt for [u16] {
    open spec fn units(&self) -> Seq<u16> {
        self@
    }

    fn starts_with(&self, needle: &[u16]) -> (r: bool) {
        units_starts_with(self, needle)
    }
}

impl WStrExt for Vec<u16> {
    open spec fn units(&self) -> Seq<u16> {
        self@
    }

    fn starts_with(&self, needle: &[u16]) -> (r: bool) {
        units_starts_with(self.as_slice(), needle)
    }
}

/// Unit-by-unit prefix test.
fn units_starts_with(s: &[u16], needle: &[u16]) -> (r: bool)
    ensures
        r == needle@.is_prefix_of(s@),
{
    if needle.len() > s.len() {
        return false;
    }
    let mut i: usize = 0;
    while i < needle.len()
        invariant
            needle@.len() <= s@.len(),
            i <= needle@.len(),
            forall|j: int| 0 <= j < i ==> s@[j] == needle@[j],
        decreases needle@.len() - i,
    {
        if s[i] != needle[i] {
            proof {
                assert(s@.subrange(0, needle@.len() as int)[i as int] != needle@[i as int]);
            }
            return false;
        }
        i = i + 1;
    }
    proof {
        assert(needle@ =~= s@.subrange(0, needle@.len() as int));
    }
    true
}

} // verus!
