//! The HTTP/2 connection preface and the header that starts every frame.
use vstd::prelude::*;
use h2::frame::Head;
use crate::event::TlsEvent;

verus! {

/// Length of the connection preface.
pub const H2_HDR_LEN: usize = 24;

/// Length of a frame header.
pub const HEADER_LEN: usize = 9;

/// Code of the frame kind DATA.
pub const KIND_DATA: u8 = 0;

/// Code of the frame kind HEADERS.
pub const KIND_HEADERS: u8 = 1;

/// Code under which every frame kind that HTTP/2 does not define is filed.
pub const KIND_UNKNOWN: u8 = 10;

/// The flag END_STREAM of DATA and HEADERS frames.
pub const END_STREAM: u8 = 0x01;

/// The connection preface: `PRI * HTTP/2.0\r\n\r\nSM\r\n\r\n`.
pub const H2_HDR: [u8; 24] = [
    0x50, 0x52, 0x49, 0x20, 0x2a, 0x20, 0x48, 0x54,
    0x54, 0x50, 0x2f, 0x32, 0x2e, 0x30, 0x0d, 0x0a,
    0x0d, 0x0a, 0x53, 0x4d, 0x0d, 0x0a, 0x0d, 0x0a,
];

/// The connection preface as a sequence of bytes.
pub open spec fn preface() -> Seq<u8> {
    H2_HDR@
}

/// Whether the payload starts with the connection preface.
pub open spec fn starts_with_preface(payload: Seq<u8>) -> bool {
    payload.len() >= H2_HDR_LEN && payload.subrange(0, H2_HDR_LEN as int) == preface()
}

/// Whether the event's payload starts with the HTTP/2 connection preface.
pub fn is_h2_hdr(event: &TlsEvent) -> (b: bool)
    ensures
        b == starts_with_preface(event.payload()),
{
    let bytes = event.bytes();
    if bytes.len() < H2_HDR_LEN {
        return false;
    }
    let expected = H2_HDR;
    let mut i: usize = 0;
    while i < H2_HDR_LEN
        invariant
            i <= H2_HDR_LEN <= bytes@.len(),
            bytes@ == event.payload(),
            expected@ == preface(),
            forall|j: int| 0 <= j < i ==> bytes@[j] == preface()[j],
        decreases H2_HDR_LEN - i,
    {
        if bytes[i] != expected[i] {
            assert(bytes@.subrange(0, H2_HDR_LEN as int)[i as int] != preface()[i as int]);
            return false;
        }
        i += 1;
    }
    assert(bytes@.subrange(0, H2_HDR_LEN as int) =~= preface());
    true
}

/// What a frame header says of its frame.
#[derive(Debug, Clone, Copy, PartialEq, Eq, Structural)]
pub struct FrameHead {
    /// Code of the frame kind, [`KIND_UNKNOWN`] for an undefined one.
    pub kind: u8,
    /// The flags octet.
    pub flag: u8,
    /// The stream that the frame belongs to.
    pub stream_id: u32,
}

/// The code under which a frame header's type octet is filed.
pub open spec fn kind_code(octet: u8) -> u8 {
    if octet <= 9 {
        octet
    } else {
        KIND_UNKNOWN
    }
}

/// The stream identifier of a frame header: the last four octets as a
/// big-endian number, without the reserved top bit.
pub open spec fn stream_id_of(header: Seq<u8>) -> int {
    (header[5] as int % 128) * 0x100_0000 + (header[6] as int) * 0x1_0000 + (header[7] as int)
        * 0x100 + (header[8] as int)
}

/// What the first nine payload octets say as a frame header.
pub open spec fn head_of(header: Seq<u8>) -> FrameHead {
    FrameHead {
        kind: kind_code(header[3]),
        flag: header[4],
        stream_id: stream_id_of(header) as u32,
    }
}

/// The frame header of a payload, where the payload holds one.
pub open spec fn frame_head_of(payload: Seq<u8>) -> Option<FrameHead> {
    if payload.len() >= HEADER_LEN {
        Some(head_of(payload))
    } else {
        None
    }
}

/// Calls `h2::frame::Head::parse` and reads the three parts of the result.
///
/// Believed of it: the kind is the fourth octet, filed under
/// [`KIND_UNKNOWN`] when above 9; the flags are the fifth octet; the stream
/// identifier is the last four octets, big-endian, top bit cleared.  It
/// reads nine octets and fails on a shorter slice.
#[verifier::external_body]
fn parse_head(header: &[u8]) -> (head: FrameHead)
    requires
        header@.len() >= HEADER_LEN,
    ensures
        head == head_of(header@),
{
    let head = Head::parse(header);
    FrameHead { kind: head.kind() as u8, flag: head.flag(), stream_id: head.stream_id().into() }
}

/// Reads the frame header at the start of the event's payload.  A payload
/// of fewer than nine octets holds none.
pub fn frame_head(event: &TlsEvent) -> (head: Option<FrameHead>)
    ensures
        head == frame_head_of(event.payload()),
{
    let bytes = event.bytes();
    if bytes.len() >= HEADER_LEN {
        Some(parse_head(bytes))
    } else {
        None
    }
}

/// Whether the flags octet has END_STREAM set.
pub open spec fn spec_ends_stream(flag: u8) -> bool {
    flag & END_STREAM == END_STREAM
}

/// Whether the flags octet has END_STREAM set.
#[verifier::when_used_as_spec(spec_ends_stream)]
pub fn ends_stream(flag: u8) -> (b: bool)
    ensures
        b == spec_ends_stream(flag),
{
    flag & END_STREAM == END_STREAM
}

} // verus!
