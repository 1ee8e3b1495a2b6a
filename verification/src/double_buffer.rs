//! A two-slot rotating buffer holding the two most recent raw captures.

use vstd::prelude::*;

verus! {

/// Two byte buffers, rotated by `swap`: `next` is written by the current
/// capture, `last` holds the immediately preceding one.
pub struct DoubleBuffer {
    last: Vec<u8>,
    next: Vec<u8>,
}

impl DoubleBuffer {
    /// The bytes of the most recently completed capture.
    pub closed spec fn last_view(&self) -> Seq<u8> {
        self.last@
    }

    /// The bytes of the capture currently being assembled.
    pub closed spec fn next_view(&self) -> Seq<u8> {
        self.next@
    }

    pub fn new() -> (r: Self)
        ensures
            r.last_view() == Seq::<u8>::empty(),
            r.next_view() == Seq::<u8>::empty(),
    {
        Self { last: vec![], next: vec![] }
    }

    /// Rotate the slots: the capture just assembled becomes the preceding one.
    pub fn swap(&mut self)
        ensures
            final(self).last_view() == old(self).next_view(),
            final(self).next_view() == old(self).last_view(),
    {
        core::mem::swap(&mut self.last, &mut self.next);
    }

    pub fn next(&self) -> (r: &[u8])
        ensures
            r@ == self.next_view(),
    {
        self.next.as_slice()
    }

    pub fn last(&self) -> (r: &[u8])
        ensures
            r@ == self.last_view(),
    {
        self.last.as_slice()
    }

    pub fn next_mut(&mut self) -> (r: &mut Vec<u8>)
        ensures
            r@ == old(self).next_view(),
            final(self).next_view() == final(r)@,
            final(self).last_view() == old(self).last_view(),
    {
        &mut self.next
    }
}

} // verus!
