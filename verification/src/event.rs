//! The record that the probes publish.
use vstd::prelude::*;

verus! {

/// Largest number of payload bytes that one event record carries.
pub const BUFSIZE: usize = 4000;

/// What a probe observed.
#[derive(Debug, Clone, Copy, PartialEq, Eq, Structural)]
pub enum Kind {
    Unset,
    New,
    Write,
    Free,
    Read,
    OpenAt,
}

/// One probe event.  Every kind of event has this layout.
///
/// `len` is the length that the probe declares.  For a write it is the
/// caller's byte count and may exceed what was copied into `data`, so
/// readers go by [`TlsEvent::bytes`], never by `len` alone.
#[derive(Debug, Clone)]
pub struct TlsEvent {
    pub kind: Kind,
    pub pid: u32,
    pub tgid: u32,
    pub ts: u64,
    pub handle: u64,
    pub len: usize,
    pub data: [u8; BUFSIZE],
}

impl Default for TlsEvent {
    fn default() -> (event: TlsEvent)
        ensures
            event.kind == Kind::Unset,
            event.pid == 0,
            event.tgid == 0,
            event.ts == 0,
            event.handle == 0,
            event.len == 0,
            forall|i: int| 0 <= i < BUFSIZE ==> event.data@[i] == 0u8,
    {
        TlsEvent { kind: Kind::Unset, pid: 0, tgid: 0, handle: 0, ts: 0, data: [0; BUFSIZE], len: 0 }
    }
}

impl TlsEvent {
    /// The declared length, clipped to the size of the buffer.
    pub open spec fn spec_scan_len(&self) -> usize {
        if self.len <= BUFSIZE {
            self.len
        } else {
            BUFSIZE
        }
    }

    /// The payload bytes that a reader may look at.
    pub open spec fn payload(&self) -> Seq<u8> {
        self.data@.subrange(0, self.spec_scan_len() as int)
    }

    /// The declared length, clipped to the size of the buffer.
    #[verifier::when_used_as_spec(spec_scan_len)]
    pub fn scan_len(&self) -> (n: usize)
        ensures
            n == self.spec_scan_len(),
            n <= BUFSIZE,
    {
        if self.len <= BUFSIZE {
            self.len
        } else {
            BUFSIZE
        }
    }

    /// The payload bytes that a reader may look at.
    pub fn bytes(&self) -> (bytes: &[u8])
        ensures
            bytes@ == self.payload(),
    {
        let n = self.scan_len();
        vstd::slice::slice_subrange(self.data.as_slice(), 0, n)
    }
}

} // verus!
