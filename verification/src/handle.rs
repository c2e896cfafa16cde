//! What is remembered of one TLS handle, and how a write changes it.
use vstd::prelude::*;
use vstd::slice::slice_to_vec;
use std::collections::HashMap;
use crate::event::TlsEvent;
use crate::frame::frame_head;
use crate::frame::frame_head_of;
use crate::frame::is_h2_hdr;
use crate::frame::starts_with_preface;
use crate::frame::KIND_HEADERS;
use crate::http1::sniff;
use crate::http1::sniffed;
use crate::http1::Sniffed;
use crate::http1::SniffedView;
use crate::text::lossy_text;
use crate::text::utf8_lossy;

verus! {

/// Size of the dynamic table of a handle's header decoder, in octets.
pub const HPACK_TABLE_SIZE: usize = 2048;

/// Largest header list that a header block may decode to, in octets.
pub const MAX_HEADER_LIST_SIZE: usize = 16 << 20;

/// The request in flight on one HTTP/2 stream.
pub struct Stream {
    /// Time of the write that opened the request.
    pub start_ns: u64,
    /// Time of the latest read, 0 while there was none.
    pub last_ns: u64,
    pub method: String,
    pub url: String,
    pub host: String,
}

/// The model of a [`Stream`].
pub struct StreamView {
    pub start_ns: u64,
    pub last_ns: u64,
    pub method: Seq<char>,
    pub url: Seq<char>,
    pub host: Seq<char>,
}

impl View for Stream {
    type V = StreamView;

    open spec fn view(&self) -> StreamView {
        StreamView {
            start_ns: self.start_ns,
            last_ns: self.last_ns,
            method: self.method@,
            url: self.url@,
            host: self.host@,
        }
    }
}

/// The models of the streams of a handle.
pub open spec fn stream_views(streams: Map<u32, Stream>) -> Map<u32, StreamView> {
    streams.map_values(|s: Stream| s@)
}

/// What is remembered of one TLS handle between its creation and its end.
pub struct Handle {
    /// Whether the connection preface of HTTP/2 was seen on the handle.
    pub is_h2: bool,
    /// The process that owns the handle.
    pub pid: u32,
    /// HTTP/1.1: time of the write that opened the request, 0 before it.
    pub start_ns: u64,
    /// HTTP/1.1: time of the latest read, 0 while there was none.
    pub last_ns: u64,
    pub method: String,
    pub url: String,
    pub host: String,
    /// HTTP/2: the requests by stream identifier.
    pub streams: HashMap<u32, Stream>,
    /// HTTP/2: whether a header block of this handle was handed out for
    /// decoding, so that the handle's decoder has a history.
    pub decoding: bool,
}

/// The model of a [`Handle`].
pub struct HandleView {
    pub is_h2: bool,
    pub pid: u32,
    pub start_ns: u64,
    pub last_ns: u64,
    pub method: Seq<char>,
    pub url: Seq<char>,
    pub host: Seq<char>,
    pub streams: Map<u32, StreamView>,
    pub decoding: bool,
}

impl View for Handle {
    type V = HandleView;

    open spec fn view(&self) -> HandleView {
        HandleView {
            is_h2: self.is_h2,
            pid: self.pid,
            start_ns: self.start_ns,
            last_ns: self.last_ns,
            method: self.method@,
            url: self.url@,
            host: self.host@,
            streams: stream_views(self.streams@),
            decoding: self.decoding,
        }
    }
}

/// The state of a handle that was just created for process `pid`.
pub open spec fn fresh_handle(pid: u32) -> HandleView {
    HandleView {
        is_h2: false,
        pid,
        start_ns: 0,
        last_ns: 0,
        method: Seq::empty(),
        url: Seq::empty(),
        host: Seq::empty(),
        streams: Map::empty(),
        decoding: false,
    }
}

impl Handle {
    /// The state of a handle that was just created for process `pid`.
    pub fn new(pid: u32) -> (handle: Handle)
        ensures
            handle@ == fresh_handle(pid),
    {
        let handle = Handle {
            is_h2: false,
            pid,
            start_ns: 0,
            last_ns: 0,
            method: String::new(),
            url: String::new(),
            host: String::new(),
            streams: HashMap::new(),
            decoding: false,
        };
        assert(stream_views(handle.streams@) =~= Map::empty());
        handle
    }
}

impl Default for Handle {
    fn default() -> (handle: Handle)
        ensures
            handle@ == fresh_handle(0),
    {
        Handle::new(0)
    }
}

/// A HEADERS frame that waits for its header block to be decoded.
///
/// The header compression of HTTP/2 is stateful: a block can only be read
/// by the decoder that has read every earlier block of the connection.
pub struct HeaderBlock {
    /// The handle that the frame was written on.
    pub handle: u64,
    /// The stream that the frame opens.
    pub stream_id: u32,
    /// The flags octet of the frame.
    pub flags: u8,
    /// Whether this is the first block of the handle, to be read by a new
    /// decoder.
    pub fresh: bool,
    /// The payload: the frame header and what was captured behind it.
    pub frame: Vec<u8>,
    /// Time of the write.
    pub ts: u64,
}

/// The model of a [`HeaderBlock`].
pub struct HeaderBlockView {
    pub handle: u64,
    pub stream_id: u32,
    pub flags: u8,
    pub fresh: bool,
    pub frame: Seq<u8>,
    pub ts: u64,
}

impl View for HeaderBlock {
    type V = HeaderBlockView;

    open spec fn view(&self) -> HeaderBlockView {
        HeaderBlockView {
            handle: self.handle,
            stream_id: self.stream_id,
            flags: self.flags,
            fresh: self.fresh,
            frame: self.frame@,
            ts: self.ts,
        }
    }
}

/// Whether a write on a handle in state `h` carries a HEADERS frame.
pub open spec fn writes_headers(h: HandleView, event: TlsEvent) -> bool {
    &&& !starts_with_preface(event.payload())
    &&& h.is_h2
    &&& frame_head_of(event.payload()) matches Some(head)
    &&& head.kind == KIND_HEADERS
}

/// The header block that a write on a handle in state `h` hands out.
pub open spec fn block_written(h: HandleView, event: TlsEvent) -> Option<HeaderBlockView> {
    if writes_headers(h, event) {
        let head = frame_head_of(event.payload())->0;
        Some(
            HeaderBlockView {
                handle: event.handle,
                stream_id: head.stream_id,
                flags: head.flag,
                fresh: !h.decoding,
                frame: event.payload(),
                ts: event.ts,
            },
        )
    } else {
        None
    }
}

/// The HTTP/1.1 state after a scan of a written text found `found`.  A
/// text in which nothing was found changes nothing; any other starts the
/// clock anew.
pub open spec fn with_sniffed(h: HandleView, found: SniffedView, ts: u64) -> HandleView {
    if found.request is None && found.host is None {
        h
    } else {
        HandleView {
            start_ns: ts,
            last_ns: 0,
            method: match found.request {
                Some((method, target)) => method,
                None => h.method,
            },
            url: match found.request {
                Some((method, target)) => target,
                None => h.url,
            },
            host: match found.host {
                Some(host) => host,
                None => h.host,
            },
            ..h
        }
    }
}

/// The state of a handle after a write.
pub open spec fn after_write(h: HandleView, event: TlsEvent) -> HandleView {
    if starts_with_preface(event.payload()) {
        HandleView { is_h2: true, ..h }
    } else if h.is_h2 {
        if writes_headers(h, event) {
            HandleView { decoding: true, ..h }
        } else {
            h
        }
    } else {
        with_sniffed(h, sniffed(utf8_lossy(event.payload())), event.ts)
    }
}

/// Applies what a scan of a written text found.
pub fn apply_sniffed(handle: &mut Handle, found: Sniffed, ts: u64)
    ensures
        final(handle)@ == with_sniffed(old(handle)@, found@, ts),
{
    let Sniffed { request, host } = found;
    if request.is_none() && host.is_none() {
        return ;
    }
    match request {
        Some((method, target)) => {
            handle.method = method;
            handle.url = target;
        },
        None => {},
    }
    match host {
        Some(value) => {
            handle.host = value;
        },
        None => {},
    }
    handle.last_ns = 0;
    handle.start_ns = ts;
}

/// Updates a handle for a write.
///
/// The connection preface of HTTP/2 marks the handle and nothing more.  On
/// a marked handle a HEADERS frame is handed out for decoding.  On any
/// other handle the payload is scanned as the text of an HTTP/1.1 request.
pub fn maybe_update_protocol_data(handle: &mut Handle, event: &TlsEvent) -> (block: Option<
    HeaderBlock,
>)
    ensures
        final(handle)@ == after_write(old(handle)@, *event),
        match block {
            Some(b) => block_written(old(handle)@, *event) == Some(b@),
            None => block_written(old(handle)@, *event) is None,
        },
{
    if is_h2_hdr(event) {
        handle.is_h2 = true;
        return None;
    }
    if handle.is_h2 {
        match frame_head(event) {
            Some(head) => {
                if head.kind == KIND_HEADERS {
                    let fresh = !handle.decoding;
                    handle.decoding = true;
                    return Some(
                        HeaderBlock {
                            handle: event.handle,
                            stream_id: head.stream_id,
                            flags: head.flag,
                            fresh,
                            frame: slice_to_vec(event.bytes()),
                            ts: event.ts,
                        },
                    );
                }
            },
            None => {},
        }
        None
    } else {
        let text = lossy_text(event.bytes());
        let found = sniff(text.as_str());
        apply_sniffed(handle, found, event.ts);
        None
    }
}

} // verus!
