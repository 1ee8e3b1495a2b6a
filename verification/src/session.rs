//! Debug-session event dispatch and the output-capture pipeline.
//!
//! The blocking event loop itself lives with the operating-system bindings;
//! what is here is every decision it takes: which events are captured, when
//! the loop ends, when an event must be acknowledged, and how one captured
//! buffer becomes a text line.

use vstd::prelude::*;

use crate::double_buffer::DoubleBuffer;
use crate::strings::decode_line;
use crate::strings::is_wide_string;
use crate::strings::strip_trailing_nuls;
use crate::strings::units_from_bytes;
use crate::strings::units_of_bytes;
use crate::strings::utf16_decode;
use crate::strings::wide_heuristic;

verus! {

/// The kinds of OS debug notification the session distinguishes.
#[derive(Debug, Clone, Copy, PartialEq, Eq, Structural)]
pub enum DebugEventKind {
    /// The target emitted a debug string.
    OutputString,
    /// The target exited.
    ProcessExit,
    /// Any other notification.
    Other,
}

/// One OS debug notification, reduced to the values the session reads.
/// `address`, `byte_len` and `wide` carry meaning only for `OutputString`
/// events: where the emitted string lies in the target's address space, its
/// length in bytes, and whether the event reports the wide-character variant
/// of the string.
#[derive(Debug, Clone, Copy, PartialEq, Eq, Structural)]
pub struct DebugEvent {
    pub kind: DebugEventKind,
    pub address: u64,
    pub byte_len: u32,
    pub wide: bool,
}

/// What the event loop does with one event.
#[derive(Debug, Clone, Copy, PartialEq, Eq, Structural)]
pub enum SessionStep {
    /// Read the event's bytes out of the target, decode and forward them,
    /// then acknowledge the event.
    Capture,
    /// Acknowledge the event and wait for the next one.
    Skip,
    /// Leave the loop, reporting success. No further event is waited for.
    Finish,
}

/// The dispatch rule of the event loop: only the wide variant of an
/// output-string event is captured, so that the narrow/wide duplicate pair a
/// target emits for one logical message collapses to exactly one capture; a
/// process-exit event ends the session; everything else is ignored.
pub open spec fn dispatch_spec(e: DebugEvent) -> SessionStep {
    match e.kind {
        DebugEventKind::OutputString => if e.wide {
            SessionStep::Capture
        } else {
            SessionStep::Skip
        },
        DebugEventKind::ProcessExit => SessionStep::Finish,
        DebugEventKind::Other => SessionStep::Skip,
    }
}

/// Decide what the event loop does with one event.
pub fn dispatch_event(e: &DebugEvent) -> (r: SessionStep)
    ensures
        r == dispatch_spec(*e),
{
    match e.kind {
        DebugEventKind::OutputString => if e.wide {
            SessionStep::Capture
        } else {
            SessionStep::Skip
        },
        DebugEventKind::ProcessExit => SessionStep::Finish,
        DebugEventKind::Other => SessionStep::Skip,
    }
}

/// Whether an event must be acknowledged back to the OS: every event exactly
/// once, except the process-exit event that ends the loop.
pub fn must_acknowledge(e: &DebugEvent) -> (r: bool)
    ensures
        r == !(dispatch_spec(*e) is Finish),
{
    match dispatch_event(e) {
        SessionStep::Finish => false,
        _ => true,
    }
}

/// The capture pipeline's failure taxonomy. Each variant is fatal: the event
/// loop cannot safely continue past it.
#[derive(Debug, Clone, Copy, PartialEq, Eq, Structural)]
pub enum CaptureError {
    /// The OS refused to attach to the target.
    AttachError,
    /// An event could not be acknowledged back to the OS.
    AcknowledgeError,
    /// A read out of the target's address space failed or fell short.
    ReadFailed,
}

/// What each capture failure means, one line per variant.
pub open spec fn capture_error_text(e: CaptureError) -> Seq<char> {
    match e {
        CaptureError::AttachError => "the OS refused to attach to the target"@,
        CaptureError::AcknowledgeError => "a debug event could not be acknowledged"@,
        CaptureError::ReadFailed => "a read out of the target's address space failed"@,
    }
}

impl CaptureError {
    /// A short description of the failure.
    pub fn message(&self) -> (m: &'static str)
        ensures
            m@ == capture_error_text(*self),
    {
        match *self {
            CaptureError::AttachError => "the OS refused to attach to the target",
            CaptureError::AcknowledgeError => "a debug event could not be acknowledged",
            CaptureError::ReadFailed => "a read out of the target's address space failed",
        }
    }
}

/// Decode one captured raw buffer: pair the little-endian bytes into 16-bit
/// code units, drop the trailing NUL units, and decode the rest lossily.
pub fn decode_captured(bytes: &[u8]) -> (r: String)
    ensures
        r@ == utf16_decode(strip_trailing_nuls(units_of_bytes(bytes@))),
{
    let units = units_from_bytes(bytes);
    decode_line(units.as_slice())
}

/// Byte-by-byte equality.
fn bytes_eq(a: &[u8], b: &[u8]) -> (r: bool)
    ensures
        r == (a@ == b@),
{
    if a.len() != b.len() {
        return false;
    }
    let mut i: usize = 0;
    while i < a.len()
        invariant
            a@.len() == b@.len(),
            i <= a@.len(),
            forall|j: int| 0 <= j < i ==> a@[j] == b@[j],
        decreases a@.len() - i,
    {
        if a[i] != b[i] {
            return false;
        }
        i = i + 1;
    }
    proof {
        assert(a@ =~= b@);
    }
    true
}

/// The legacy capture strategy, for events that carry no reliable
/// wide/narrow flag: a two-slot rotating buffer holds the two most recent
/// raw captures, and a capture is forwarded only if it differs from the
/// immediately preceding one and is not classified wide by the heuristic —
/// so the narrow/wide duplicate pair of one logical message again collapses
/// to one forwarded line. The heuristic misclassifies some short or
/// binary-heavy strings; it is an approximation by design.
pub struct HeuristicCapture {
    buffers: DoubleBuffer,
}

impl HeuristicCapture {
    /// The raw bytes of the immediately preceding capture.
    pub closed spec fn previous(&self) -> Seq<u8> {
        self.buffers.last_view()
    }

    pub fn new() -> (r: Self)
        ensures
            r.previous() == Seq::<u8>::empty(),
    {
        HeuristicCapture { buffers: DoubleBuffer::new() }
    }

    /// Record one raw capture and decide whether it is forwarded.
    pub fn offer(&mut self, bytes: &[u8]) -> (forward: bool)
        ensures
            final(self).previous() == bytes@,
            forward == (bytes@ != old(self).previous() && !wide_heuristic(bytes@)),
    {
        let differs = !bytes_eq(bytes, self.buffers.last());
        let forward = differs && !is_wide_string(bytes);
        let next = self.buffers.next_mut();
        next.clear();
        next.extend_from_slice(bytes);
        self.buffers.swap();
        forward
    }
}

} // verus!
