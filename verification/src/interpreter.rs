//! The interpreter of TLS events: one state per handle, one timing record
//! per completed request.
//!
//! The interpreter decides; it performs nothing.  Each event yields an
//! [`Action`] for the caller to carry out.
use vstd::prelude::*;
use vstd::slice::slice_subrange;
use vstd::std_specs::hash::axiom_spec_keys_iter;
use vstd::std_specs::hash::spec_keys_iter;
use vstd::std_specs::iter::IteratorSpec;
use vstd::string::StringExecFns;
use sysinfo::PidExt;
use std::collections::HashMap;
use crate::cleanup::has_pid;
use crate::cleanup::lemma_next_of_distinct;
use crate::discovery::OpenMsg;
use crate::discovery::OpenMsgView;
use crate::event::Kind;
use crate::event::TlsEvent;
use crate::frame::ends_stream;
use crate::frame::frame_head;
use crate::frame::frame_head_of;
use crate::frame::starts_with_preface;
use crate::frame::KIND_DATA;
use crate::frame::KIND_HEADERS;
use crate::handle::after_write;
use crate::handle::block_written;
use crate::handle::fresh_handle;
use crate::handle::maybe_update_protocol_data;
use crate::handle::stream_views;
use crate::handle::writes_headers;
use crate::handle::Handle;
use crate::handle::HandleView;
use crate::handle::HeaderBlock;
use crate::handle::HeaderBlockView;
use crate::handle::Stream;
use crate::handle::StreamView;
use crate::http1::sniffed;
use crate::text::lossy_text;
use crate::text::utf8_lossy;

verus! {

/// The timing of one completed request.
pub struct StatsRecord {
    pub method: String,
    pub host: String,
    pub url: String,
    /// Nanoseconds from the write that opened the request to its last read.
    pub delta_ns: u64,
}

/// The model of a [`StatsRecord`].
pub struct StatsRecordView {
    pub method: Seq<char>,
    pub host: Seq<char>,
    pub url: Seq<char>,
    pub delta_ns: u64,
}

impl View for StatsRecord {
    type V = StatsRecordView;

    open spec fn view(&self) -> StatsRecordView {
        StatsRecordView {
            method: self.method@,
            host: self.host@,
            url: self.url@,
            delta_ns: self.delta_ns,
        }
    }
}

/// The line that reports a record, given its duration in milliseconds as
/// a decimal number: `0`, method, host, path and duration, separated by
/// tabs and ended by a line feed.
pub open spec fn line_of(record: StatsRecordView, millis: Seq<char>) -> Seq<char> {
    seq!['0', '\t'] + record.method + seq!['\t'] + record.host + seq!['\t'] + record.url + seq![
        '\t',
    ] + millis + seq!['\n']
}

/// The line that reports the record to the collector.  `millis` is the
/// record's duration in milliseconds, as the caller writes it out.
pub fn stats_line(record: &StatsRecord, millis: &str) -> (line: String)
    ensures
        line@ == line_of(record@, millis@),
{
    let mut line = String::new();
    line.push('0');
    line.push('\t');
    line.append(record.method.as_str());
    line.push('\t');
    line.append(record.host.as_str());
    line.push('\t');
    line.append(record.url.as_str());
    line.push('\t');
    line.append(millis);
    line.push('\n');
    assert(line@ =~= line_of(record@, millis@));
    line
}

/// The pseudo-headers of a decoded header block, as far as it held them.
pub struct Decoded {
    pub method: Option<String>,
    pub authority: Option<String>,
    pub path: Option<String>,
}

/// The model of a [`Decoded`].
pub struct DecodedView {
    pub method: Option<Seq<char>>,
    pub authority: Option<Seq<char>>,
    pub path: Option<Seq<char>>,
}

/// The model of an optional text.
pub open spec fn text_view(text: Option<String>) -> Option<Seq<char>> {
    match text {
        Some(t) => Some(t@),
        None => None,
    }
}

impl View for Decoded {
    type V = DecodedView;

    open spec fn view(&self) -> DecodedView {
        DecodedView {
            method: text_view(self.method),
            authority: text_view(self.authority),
            path: text_view(self.path),
        }
    }
}

/// What the caller is to do after an event.
pub enum Action {
    /// Nothing.
    Idle,
    /// Send the record to the collector.
    Emit(StatsRecord),
    /// Hand the message to the discovery controller.
    Forward(OpenMsg),
    /// Decode the header block with the decoder of its handle, then report
    /// with [`Interpreter::headers_decoded`].
    Decode(HeaderBlock),
    /// The event has no kind.
    Unexpected,
}

/// The model of an [`Action`].
pub enum ActionView {
    Idle,
    Emit(StatsRecordView),
    Forward(OpenMsgView),
    Decode(HeaderBlockView),
    Unexpected,
}

impl View for Action {
    type V = ActionView;

    open spec fn view(&self) -> ActionView {
        match self {
            Action::Idle => ActionView::Idle,
            Action::Emit(record) => ActionView::Emit(record@),
            Action::Forward(msg) => ActionView::Forward(msg@),
            Action::Decode(block) => ActionView::Decode(block@),
            Action::Unexpected => ActionView::Unexpected,
        }
    }
}

/// The action that goes with an optional record.
pub open spec fn emit_or_idle(record: Option<StatsRecordView>) -> ActionView {
    match record {
        Some(r) => ActionView::Emit(r),
        None => ActionView::Idle,
    }
}

/// The stream that a read on a handle in state `h` belongs to: the stream
/// of the frame header in the payload, where it is not stream 0 and the
/// handle knows it.
pub open spec fn stream_read(h: HandleView, event: TlsEvent) -> Option<u32> {
    match frame_head_of(event.payload()) {
        Some(head) => if h.is_h2 && head.stream_id > 0 && h.streams.contains_key(head.stream_id) {
            Some(head.stream_id)
        } else {
            None
        },
        None => None,
    }
}

/// The state of a handle after a read: the time of the read is noted, on
/// the stream for HTTP/2 and on the handle for HTTP/1.1.
pub open spec fn after_read(h: HandleView, event: TlsEvent) -> HandleView {
    if h.is_h2 {
        match stream_read(h, event) {
            Some(id) => HandleView {
                streams: h.streams.insert(id, StreamView { last_ns: event.ts, ..h.streams[id] }),
                ..h
            },
            None => h,
        }
    } else {
        HandleView { last_ns: event.ts, ..h }
    }
}

/// The record that a read on a handle in state `h` completes: that of its
/// stream, where the frame is DATA or HEADERS with END_STREAM set and the
/// read is no earlier than the request's start.
pub open spec fn record_at_read(h: HandleView, event: TlsEvent) -> Option<StatsRecordView> {
    match stream_read(h, event) {
        Some(id) => {
            let head = frame_head_of(event.payload())->0;
            let stream = h.streams[id];
            if (head.kind == KIND_HEADERS || head.kind == KIND_DATA) && ends_stream(head.flag)
                && event.ts >= stream.start_ns {
                Some(
                    StatsRecordView {
                        method: stream.method,
                        host: stream.host,
                        url: stream.url,
                        delta_ns: (event.ts - stream.start_ns) as u64,
                    },
                )
            } else {
                None
            }
        },
        None => None,
    }
}

/// The time at which a request on an HTTP/1.1 handle ended, when the handle
/// is destroyed at `ts`: the last read, or `ts` where there was none.
pub open spec fn end_at_free(h: HandleView, ts: u64) -> u64 {
    if h.last_ns > 0 {
        h.last_ns
    } else {
        ts
    }
}

/// The record that the destruction of a handle in state `h` completes:
/// that of a started HTTP/1.1 request that ended no earlier than it began.
pub open spec fn record_at_free(h: HandleView, ts: u64) -> Option<StatsRecordView> {
    if !h.is_h2 && h.start_ns > 0 && end_at_free(h, ts) >= h.start_ns {
        Some(
            StatsRecordView {
                method: h.method,
                host: h.host,
                url: h.url,
                delta_ns: (end_at_free(h, ts) - h.start_ns) as u64,
            },
        )
    } else {
        None
    }
}

/// The path of an open event: its payload without the terminator.
pub open spec fn open_path(event: TlsEvent) -> Seq<u8> {
    event.payload().subrange(0, event.payload().len() - 1)
}

/// The message that an open event gives rise to.  An event without
/// payload gives none, nor does one of the interpreter's own process.
pub open spec fn forwarded(own_pid: u32, event: TlsEvent) -> Option<OpenMsgView> {
    if event.payload().len() > 0 && event.tgid != own_pid {
        Some(OpenMsgView { lib_name: utf8_lossy(open_path(event)), pid: event.pid })
    } else {
        None
    }
}

/// The method that a header block without `:method` counts as.
pub open spec fn default_method() -> Seq<char> {
    seq!['G', 'E', 'T']
}

/// The stream that a decoded header block opens at time `ts`.
pub open spec fn stream_opened(decoded: DecodedView, ts: u64) -> StreamView {
    StreamView {
        start_ns: ts,
        last_ns: 0,
        method: match decoded.method {
            Some(m) => m,
            None => default_method(),
        },
        url: match decoded.path {
            Some(p) => p,
            None => Seq::empty(),
        },
        host: match decoded.authority {
            Some(a) => a,
            None => Seq::empty(),
        },
    }
}

/// The handles and the action after one event.
pub open spec fn step(handles: Map<u64, HandleView>, own_pid: u32, event: TlsEvent) -> (
    Map<u64, HandleView>,
    ActionView,
) {
    let known = handles.contains_key(event.handle);
    let h = handles[event.handle];
    match event.kind {
        Kind::New => (handles.insert(event.handle, fresh_handle(event.pid)), ActionView::Idle),
        Kind::Write => if known {
            (
                handles.insert(event.handle, after_write(h, event)),
                match block_written(h, event) {
                    Some(block) => ActionView::Decode(block),
                    None => ActionView::Idle,
                },
            )
        } else {
            (handles, ActionView::Idle)
        },
        Kind::Read => if known {
            (
                handles.insert(event.handle, after_read(h, event)),
                emit_or_idle(record_at_read(h, event)),
            )
        } else {
            (handles, ActionView::Idle)
        },
        Kind::Free => if known {
            (handles.remove(event.handle), emit_or_idle(record_at_free(h, event.ts)))
        } else {
            (handles, ActionView::Idle)
        },
        Kind::OpenAt => (
            handles,
            match forwarded(own_pid, event) {
                Some(msg) => ActionView::Forward(msg),
                None => ActionView::Idle,
            },
        ),
        Kind::Unset => (handles, ActionView::Unexpected),
    }
}

/// The handles after the header block `block` was decoded to `decoded`.
/// A block that could not be read changes nothing, nor does one whose
/// handle is gone or is no HTTP/2 handle.
pub open spec fn after_decode(
    handles: Map<u64, HandleView>,
    block: HeaderBlockView,
    decoded: Option<DecodedView>,
) -> Map<u64, HandleView> {
    if handles.contains_key(block.handle) && handles[block.handle].is_h2 && decoded is Some {
        let h = handles[block.handle];
        handles.insert(
            block.handle,
            HandleView {
                streams: h.streams.insert(block.stream_id, stream_opened(decoded->0, block.ts)),
                ..h
            },
        )
    } else {
        handles
    }
}

/// The handles that are left when only the processes in `live` do.
pub open spec fn kept(handles: Map<u64, HandleView>, live: Set<u32>) -> Map<u64, HandleView> {
    Map::new(
        |k: u64| handles.contains_key(k) && live.contains(handles[k].pid),
        |k: u64| handles[k],
    )
}

/// The models of the handles.
pub open spec fn handle_views(handles: Map<u64, Handle>) -> Map<u64, HandleView> {
    handles.map_values(|h: Handle| h@)
}

/// The record of a request with these texts.
fn record_of(method: &String, host: &String, url: &String, delta_ns: u64) -> (record: StatsRecord)
    ensures
        record@ == (StatsRecordView { method: method@, host: host@, url: url@, delta_ns }),
{
    StatsRecord { method: method.clone(), host: host.clone(), url: url.clone(), delta_ns }
}

/// Notes a read on a handle and says which record it completes.
pub fn note_read(handle: &mut Handle, event: &TlsEvent) -> (record: Option<StatsRecord>)
    ensures
        final(handle)@ == after_read(old(handle)@, *event),
        match record {
            Some(r) => record_at_read(old(handle)@, *event) == Some(r@),
            None => record_at_read(old(handle)@, *event) is None,
        },
{
    if !handle.is_h2 {
        handle.last_ns = event.ts;
        return None;
    }
    let head = match frame_head(event) {
        Some(head) => head,
        None => {
            return None;
        },
    };
    if head.stream_id == 0 {
        return None;
    }
    let ghost before = handle.streams@;
    match handle.streams.remove(&head.stream_id) {
        Some(mut stream) => {
            stream.last_ns = event.ts;
            let record = if (head.kind == KIND_HEADERS || head.kind == KIND_DATA) && ends_stream(
                head.flag,
            ) && event.ts >= stream.start_ns {
                Some(
                    record_of(
                        &stream.method,
                        &stream.host,
                        &stream.url,
                        event.ts - stream.start_ns,
                    ),
                )
            } else {
                None
            };
            let ghost noted = stream@;
            handle.streams.insert(head.stream_id, stream);
            assert(stream_views(handle.streams@) =~= stream_views(before).insert(
                head.stream_id,
                noted,
            ));
            record
        },
        None => {
            assert(handle.streams@ =~= before);
            None
        },
    }
}

/// The record that the destruction of the handle at `ts` completes.
pub fn record_on_free(handle: &Handle, ts: u64) -> (record: Option<StatsRecord>)
    ensures
        match record {
            Some(r) => record_at_free(handle@, ts) == Some(r@),
            None => record_at_free(handle@, ts) is None,
        },
{
    if handle.is_h2 || handle.start_ns == 0 {
        return None;
    }
    let end = if handle.last_ns > 0 {
        handle.last_ns
    } else {
        ts
    };
    if end >= handle.start_ns {
        Some(record_of(&handle.method, &handle.host, &handle.url, end - handle.start_ns))
    } else {
        None
    }
}

/// The stream that a decoded header block opens at time `ts`.
pub fn open_stream(decoded: Decoded, ts: u64) -> (stream: Stream)
    ensures
        stream@ == stream_opened(decoded@, ts),
{
    let Decoded { method, authority, path } = decoded;
    let method = match method {
        Some(m) => m,
        None => {
            let mut get = String::new();
            get.push('G');
            get.push('E');
            get.push('T');
            assert(get@ =~= default_method());
            get
        },
    };
    let host = match authority {
        Some(a) => a,
        None => String::new(),
    };
    let url = match path {
        Some(p) => p,
        None => String::new(),
    };
    Stream { start_ns: ts, last_ns: 0, method, url, host }
}

/// The message that an open event gives rise to.
pub fn open_msg(own_pid: u32, event: &TlsEvent) -> (msg: Option<OpenMsg>)
    ensures
        match msg {
            Some(m) => forwarded(own_pid, *event) == Some(m@),
            None => forwarded(own_pid, *event) is None,
        },
{
    let bytes = event.bytes();
    if bytes.len() == 0 || event.tgid == own_pid {
        return None;
    }
    let path = slice_subrange(bytes, 0, bytes.len() - 1);
    Some(OpenMsg { lib_name: lossy_text(path), pid: event.pid })
}

/// Calls `sysinfo::get_current_pid` and takes the result as a number.
///
/// Nothing is believed of the result: which process runs is not for the
/// library to know.
#[verifier::external_body]
fn current_pid() -> (pid: Option<u32>) {
    match sysinfo::get_current_pid() {
        Ok(pid) => Some(pid.as_u32()),
        Err(_) => None,
    }
}

/// The interpreter: the state of every live TLS handle.
pub struct Interpreter {
    own_pid: u32,
    handles: HashMap<u64, Handle>,
}

impl View for Interpreter {
    type V = Map<u64, HandleView>;

    closed spec fn view(&self) -> Map<u64, HandleView> {
        handle_views(self.handles@)
    }
}

impl Interpreter {
    /// The process whose own opens the interpreter passes over.
    pub closed spec fn spec_own_pid(&self) -> u32 {
        self.own_pid
    }

    /// An interpreter without handles, run by process `own_pid`.
    pub fn new(own_pid: u32) -> (interpreter: Interpreter)
        ensures
            interpreter@ == Map::<u64, HandleView>::empty(),
            interpreter.own_pid() == own_pid,
    {
        let interpreter = Interpreter { own_pid, handles: HashMap::new() };
        assert(interpreter@ =~= Map::<u64, HandleView>::empty());
        interpreter
    }

    /// An interpreter without handles, run by the current process.  `None`
    /// where the system does not tell which process that is.
    pub fn for_current_process() -> (interpreter: Option<Interpreter>)
        ensures
            interpreter matches Some(i) ==> i@ == Map::<u64, HandleView>::empty(),
    {
        Interpreter::for_process(current_pid())
    }

    /// An interpreter without handles, run by the process `pid`, where the
    /// system told which process runs it; none where it did not.
    pub fn for_process(pid: Option<u32>) -> (interpreter: Option<Interpreter>)
        ensures
            match pid {
                Some(own_pid) => {
                    &&& interpreter matches Some(i)
                    &&& i@ == Map::<u64, HandleView>::empty()
                    &&& i.own_pid() == own_pid
                },
                None => interpreter is None,
            },
    {
        match pid {
            Some(own_pid) => Some(Interpreter::new(own_pid)),
            None => None,
        }
    }

    /// The process whose own opens the interpreter passes over.
    #[verifier::when_used_as_spec(spec_own_pid)]
    pub fn own_pid(&self) -> (pid: u32)
        ensures
            pid == self.spec_own_pid(),
    {
        self.own_pid
    }

    /// The number of live handles.
    pub fn len(&self) -> (n: usize)
        ensures
            n == self@.dom().len(),
    {
        assert(self@.dom() =~= self.handles@.dom());
        self.handles.len()
    }

    /// Whether the handle is live.
    pub fn contains(&self, handle: u64) -> (known: bool)
        ensures
            known == self@.contains_key(handle),
    {
        self.handles.contains_key(&handle)
    }

    /// Takes one event: updates the state and says what is to be done.
    pub fn on_event(&mut self, event: &TlsEvent) -> (action: Action)
        ensures
            (final(self)@, action@) == step(old(self)@, old(self).own_pid(), *event),
            final(self).own_pid() == old(self).own_pid(),
    {
        let ghost before = self.handles@;
        match event.kind {
            Kind::New => {
                let handle = Handle::new(event.pid);
                let ghost created = handle@;
                self.handles.insert(event.handle, handle);
                assert(self@ =~= handle_views(before).insert(event.handle, created));
                Action::Idle
            },
            Kind::Write => match self.handles.remove(&event.handle) {
                Some(mut handle) => {
                    let block = maybe_update_protocol_data(&mut handle, event);
                    let ghost written = handle@;
                    self.handles.insert(event.handle, handle);
                    assert(self@ =~= handle_views(before).insert(event.handle, written));
                    match block {
                        Some(b) => Action::Decode(b),
                        None => Action::Idle,
                    }
                },
                None => {
                    assert(self.handles@ =~= before);
                    Action::Idle
                },
            },
            Kind::Read => match self.handles.remove(&event.handle) {
                Some(mut handle) => {
                    let record = note_read(&mut handle, event);
                    let ghost noted = handle@;
                    self.handles.insert(event.handle, handle);
                    assert(self@ =~= handle_views(before).insert(event.handle, noted));
                    match record {
                        Some(r) => Action::Emit(r),
                        None => Action::Idle,
                    }
                },
                None => {
                    assert(self.handles@ =~= before);
                    Action::Idle
                },
            },
            Kind::Free => match self.handles.remove(&event.handle) {
                Some(handle) => {
                    assert(self@ =~= handle_views(before).remove(event.handle));
                    match record_on_free(&handle, event.ts) {
                        Some(r) => Action::Emit(r),
                        None => Action::Idle,
                    }
                },
                None => {
                    assert(self.handles@ =~= before);
                    Action::Idle
                },
            },
            Kind::OpenAt => match open_msg(self.own_pid, event) {
                Some(msg) => Action::Forward(msg),
                None => Action::Idle,
            },
            Kind::Unset => Action::Unexpected,
        }
    }

    /// Takes the outcome of decoding a header block that
    /// [`Interpreter::on_event`] handed out: `None` where the frame could
    /// not be read, else its pseudo-headers.  They open a stream on the
    /// block's handle.
    pub fn headers_decoded(&mut self, block: &HeaderBlock, decoded: Option<Decoded>)
        ensures
            final(self)@ == after_decode(
                old(self)@,
                block@,
                match decoded {
                    Some(d) => Some(d@),
                    None => None,
                },
            ),
            final(self).own_pid() == old(self).own_pid(),
    {
        let ghost before = self.handles@;
        let decoded = match decoded {
            Some(d) => d,
            None => {
                return ;
            },
        };
        match self.handles.remove(&block.handle) {
            Some(mut handle) => {
                if handle.is_h2 {
                    let ghost streams = handle.streams@;
                    let stream = open_stream(decoded, block.ts);
                    let ghost opened = stream@;
                    handle.streams.insert(block.stream_id, stream);
                    assert(stream_views(handle.streams@) =~= stream_views(streams).insert(
                        block.stream_id,
                        opened,
                    ));
                }
                let ghost after = handle@;
                self.handles.insert(block.handle, handle);
                assert(self@ =~= handle_views(before).insert(block.handle, after));
                assert(!before[block.handle].is_h2 ==> self@ =~= handle_views(before));
            },
            None => {
                assert(self.handles@ =~= before);
            },
        }
    }

    /// The identifiers of the live handles, each once, in no particular
    /// order.
    fn handle_ids(&self) -> (ids: Vec<u64>)
        ensures
            ids@.to_set() == self.handles@.dom(),
            ids@.no_duplicates(),
    {
        let mut ids: Vec<u64> = Vec::new();
        for id in it: self.handles.keys()
            invariant
                ids@ == it.seq().take(it.index() as int).unref(),
                it.seq() == spec_keys_iter(&self.handles).remaining(),
        {
            ids.push(*id);
        }
        proof {
            axiom_spec_keys_iter(&self.handles);
            assert(ids@ == spec_keys_iter(&self.handles).remaining().unref());
        }
        ids
    }

    /// The processes that own a live handle.  A process may be named more
    /// than once.
    #[verifier::rlimit(40)]
    pub fn pids(&self) -> (pids: Vec<u32>)
        ensures
            forall|pid: u32|
                pids@.contains(pid) <==> exists|id: u64|
                    self@.contains_key(id) && (#[trigger] self@[id]).pid == pid,
    {
        let ids = self.handle_ids();
        let mut pids: Vec<u32> = Vec::new();
        let mut i: usize = 0;
        while i < ids.len()
            invariant
                i <= ids@.len(),
                ids@.to_set() == self.handles@.dom(),
                forall|pid: u32|
                    pids@.contains(pid) <==> exists|j: int|
                        0 <= j < i && (#[trigger] self.handles@[ids@[j]]).pid == pid,
            decreases ids@.len() - i,
        {
            assert(ids@.to_set().contains(ids@[i as int]));
            let ghost old_pids = pids@;
            match self.handles.get(&ids[i]) {
                Some(handle) => {
                    pids.push(handle.pid);
                    assert(handle == self.handles@[ids@[i as int]]);
                },
                None => {},
            }
            proof {
                let added = self.handles@[ids@[i as int]].pid;
                assert(pids@ == old_pids.push(added));
                assert forall|pid: u32|
                    pids@.contains(pid) <==> exists|j: int|
                        0 <= j < i + 1 && (#[trigger] self.handles@[ids@[j]]).pid == pid by {
                    if pids@.contains(pid) {
                        let at = choose|at: int| 0 <= at < pids@.len() && pids@[at] == pid;
                        if at < old_pids.len() {
                            assert(old_pids[at] == pid);
                            assert(old_pids.contains(pid));
                        } else {
                            assert(self.handles@[ids@[i as int]].pid == pid);
                        }
                    }
                    if exists|j: int|
                        0 <= j < i + 1 && (#[trigger] self.handles@[ids@[j]]).pid == pid {
                        let j = choose|j: int|
                            0 <= j < i + 1 && (#[trigger] self.handles@[ids@[j]]).pid == pid;
                        if j < i {
                            assert(old_pids.contains(pid));
                            let at = choose|at: int| 0 <= at < old_pids.len() && old_pids[at] == pid;
                            assert(pids@[at] == pid);
                        } else {
                            assert(pids@[old_pids.len() as int] == pid);
                        }
                    }
                }
            }
            i += 1;
        }
        proof {
            assert forall|pid: u32|
                pids@.contains(pid) <==> exists|id: u64|
                    self@.contains_key(id) && (#[trigger] self@[id]).pid == pid by {
                if pids@.contains(pid) {
                    let j = choose|j: int|
                        0 <= j < i && (#[trigger] self.handles@[ids@[j]]).pid == pid;
                    assert(ids@.to_set().contains(ids@[j]));
                    assert(self@.contains_key(ids@[j]) && self@[ids@[j]].pid == pid);
                }
                if exists|id: u64| self@.contains_key(id) && (#[trigger] self@[id]).pid == pid {
                    let id = choose|id: u64|
                        self@.contains_key(id) && (#[trigger] self@[id]).pid == pid;
                    assert(ids@.to_set().contains(id));
                    let j = choose|j: int| 0 <= j < ids@.len() && ids@[j] == id;
                    assert(self.handles@[ids@[j]].pid == pid);
                }
            }
        }
        pids
    }

    /// Prunes the state: forgets every handle whose owner is not among the
    /// processes in `live`.
    #[verifier::rlimit(40)]
    pub fn retain_live(&mut self, live: &[u32])
        ensures
            final(self)@ == kept(old(self)@, live@.to_set()),
            final(self).own_pid() == old(self).own_pid(),
    {
        let ids = self.handle_ids();
        let ghost before = self.handles@;
        let mut i: usize = 0;
        while i < ids.len()
            invariant
                i <= ids@.len(),
                ids@.to_set() == before.dom(),
                ids@.no_duplicates(),
                self.own_pid == old(self).own_pid,
                forall|id: u64|
                    self.handles@.contains_key(id) <==> before.contains_key(id) && (ids@.take(
                        i as int,
                    ).contains(id) ==> live@.contains(before[id].pid)),
                forall|id: u64| self.handles@.contains_key(id) ==> self.handles@[id] == before[id],
            decreases ids@.len() - i,
        {
            let id = ids[i];
            proof {
                lemma_next_of_distinct(ids@, i as int);
                assert(ids@.to_set().contains(id));
            }
            let pid = match self.handles.get(&id) {
                Some(handle) => handle.pid,
                None => vstd::pervasive::unreached(),
            };
            assert(pid == before[id].pid);
            if !has_pid(live, pid) {
                self.handles.remove(&id);
            }
            i += 1;
        }
        proof {
            assert(ids@.take(i as int) =~= ids@);
            assert forall|id: u64| before.contains_key(id) implies ids@.contains(id) by {
                assert(ids@.to_set().contains(id));
            }
            let target = kept(handle_views(before), live@.to_set());
            assert forall|id: u64| self@.contains_key(id) <==> target.contains_key(id) by {
                assert(self@.contains_key(id) <==> self.handles@.contains_key(id));
                assert(handle_views(before).contains_key(id) <==> before.contains_key(id));
                if before.contains_key(id) {
                    assert(ids@.contains(id));
                    assert(handle_views(before)[id].pid == before[id].pid);
                    assert(live@.to_set().contains(before[id].pid) <==> live@.contains(
                        before[id].pid,
                    ));
                }
            }
            assert(self@ =~= target);
        }
    }
}

/// The handles after a sequence of events.
pub open spec fn run(handles: Map<u64, HandleView>, own_pid: u32, events: Seq<TlsEvent>) -> Map<
    u64,
    HandleView,
>
    decreases events.len(),
{
    if events.len() == 0 {
        handles
    } else {
        step(run(handles, own_pid, events.drop_last()), own_pid, events.last()).0
    }
}

/// A write, a read or a free for a handle that is not known does nothing:
/// the state stays as it is and nothing is to be done.
pub proof fn unknown_handle_is_ignored(handles: Map<u64, HandleView>, own_pid: u32, event: TlsEvent)
    requires
        !handles.contains_key(event.handle),
        event.kind == Kind::Write || event.kind == Kind::Read || event.kind == Kind::Free,
    ensures
        step(handles, own_pid, event) == (handles, ActionView::Idle),
{
}

/// An open by the interpreter's own process does nothing, whatever path it
/// names.
pub proof fn own_open_is_ignored(handles: Map<u64, HandleView>, own_pid: u32, event: TlsEvent)
    requires
        event.kind == Kind::OpenAt,
        event.tgid == own_pid,
    ensures
        step(handles, own_pid, event) == (handles, ActionView::Idle),
{
}

/// Only the connection preface turns a handle into an HTTP/2 handle: a
/// write after which the handle is one, and before which it was not,
/// begins with the 24 bytes of the preface.
pub proof fn only_the_preface_marks_http2(
    handles: Map<u64, HandleView>,
    own_pid: u32,
    event: TlsEvent,
)
    requires
        event.kind == Kind::Write,
        handles.contains_key(event.handle),
        !handles[event.handle].is_h2,
    ensures
        step(handles, own_pid, event).0[event.handle].is_h2 <==> event.payload().len() >= 24
            && event.payload().subrange(0, 24) == crate::frame::preface(),
{
}

/// Every record that is emitted carries the time from the start of its
/// request to its end: for a free, from the handle's start to its last
/// read, or to the free where nothing was read; for a read, from the
/// stream's start to the read.
pub proof fn emitted_duration_is_end_minus_start(
    handles: Map<u64, HandleView>,
    own_pid: u32,
    event: TlsEvent,
)
    requires
        step(handles, own_pid, event).1 is Emit,
    ensures
        ({
            let record = step(handles, own_pid, event).1->Emit_0;
            let h = handles[event.handle];
            match event.kind {
                Kind::Free => record.delta_ns == end_at_free(h, event.ts) - h.start_ns,
                Kind::Read => {
                    &&& stream_read(h, event) matches Some(id)
                    &&& record.delta_ns == event.ts - h.streams[id].start_ns
                },
                _ => false,
            }
        }),
{
}

/// Reads on an HTTP/1.1 handle keep the request and its start, and leave
/// the time of the latest of them.
proof fn reads_keep_the_request(
    handles: Map<u64, HandleView>,
    own_pid: u32,
    handle: u64,
    reads: Seq<TlsEvent>,
)
    requires
        handles.contains_key(handle),
        !handles[handle].is_h2,
        handles[handle].last_ns == 0,
        forall|i: int|
            0 <= i < reads.len() ==> (#[trigger] reads[i]).kind == Kind::Read && reads[i].handle
                == handle,
    ensures
        run(handles, own_pid, reads).contains_key(handle),
        run(handles, own_pid, reads)[handle] == (HandleView {
            last_ns: if reads.len() > 0 {
                reads.last().ts
            } else {
                0
            },
            ..handles[handle]
        }),
    decreases reads.len(),
{
    if reads.len() > 0 {
        reads_keep_the_request(handles, own_pid, handle, reads.drop_last());
    }
}

/// The duration of an HTTP/1.1 request is the time from the write that
/// opened it to the last read before the handle is freed.
///
/// Take a known HTTP/1.1 handle, a write on it in which a request line or
/// a host header is found, then any reads on it, then its free, with times
/// that do not run backwards.  The free emits one record.  Its duration is
/// the time of the last read less the time of the write, or the time of the
/// free less the time of the write where nothing was read.
pub proof fn http1_duration_is_last_read_minus_write(
    handles: Map<u64, HandleView>,
    own_pid: u32,
    write: TlsEvent,
    reads: Seq<TlsEvent>,
    free: TlsEvent,
)
    requires
        handles.contains_key(write.handle),
        !handles[write.handle].is_h2,
        write.kind == Kind::Write,
        !starts_with_preface(write.payload()),
        sniffed(utf8_lossy(write.payload())).request is Some || sniffed(
            utf8_lossy(write.payload()),
        ).host is Some,
        write.ts > 0,
        forall|i: int|
            0 <= i < reads.len() ==> (#[trigger] reads[i]).kind == Kind::Read && reads[i].handle
                == write.handle && reads[i].ts >= write.ts,
        free.kind == Kind::Free,
        free.handle == write.handle,
        free.ts >= write.ts,
    ensures
        ({
            let opened = step(handles, own_pid, write).0;
            let end = if reads.len() > 0 {
                reads.last().ts
            } else {
                free.ts
            };
            step(run(opened, own_pid, reads), own_pid, free).1 == ActionView::Emit(
                StatsRecordView {
                    method: opened[write.handle].method,
                    host: opened[write.handle].host,
                    url: opened[write.handle].url,
                    delta_ns: (end - write.ts) as u64,
                },
            )
        }),
{
    let opened = step(handles, own_pid, write).0;
    assert(opened[write.handle].start_ns == write.ts);
    assert(opened[write.handle].last_ns == 0);
    reads_keep_the_request(opened, own_pid, write.handle, reads);
}

/// Reads on an HTTP/2 handle keep the start and the request of each of its
/// streams.
proof fn reads_keep_the_stream(
    handles: Map<u64, HandleView>,
    own_pid: u32,
    handle: u64,
    stream: u32,
    reads: Seq<TlsEvent>,
)
    requires
        handles.contains_key(handle),
        handles[handle].is_h2,
        handles[handle].streams.contains_key(stream),
        forall|i: int|
            0 <= i < reads.len() ==> (#[trigger] reads[i]).kind == Kind::Read && reads[i].handle
                == handle,
    ensures
        ({
            let after = run(handles, own_pid, reads);
            let was = handles[handle].streams[stream];
            &&& after.contains_key(handle)
            &&& after[handle].is_h2
            &&& after[handle].streams.contains_key(stream)
            &&& after[handle].streams[stream].start_ns == was.start_ns
            &&& after[handle].streams[stream].method == was.method
            &&& after[handle].streams[stream].host == was.host
            &&& after[handle].streams[stream].url == was.url
        }),
    decreases reads.len(),
{
    if reads.len() > 0 {
        reads_keep_the_stream(handles, own_pid, handle, stream, reads.drop_last());
    }
}

/// The duration of an HTTP/2 request is the time from the write that
/// opened its stream to the read that ends the stream.
///
/// Take a known HTTP/2 handle, a write on it that carries a HEADERS frame
/// for a stream other than 0, the pseudo-headers that its block decodes to,
/// then any reads on the handle, then a read of a DATA or HEADERS frame of
/// that stream with END_STREAM set, no earlier than the write.  That read
/// emits one record, with the decoded request and with the time of the read
/// less the time of the write as its duration.
pub proof fn http2_duration_is_end_of_stream_minus_write(
    handles: Map<u64, HandleView>,
    own_pid: u32,
    write: TlsEvent,
    decoded: DecodedView,
    reads: Seq<TlsEvent>,
    last: TlsEvent,
)
    requires
        handles.contains_key(write.handle),
        write.kind == Kind::Write,
        writes_headers(handles[write.handle], write),
        frame_head_of(write.payload())->0.stream_id > 0,
        forall|i: int|
            0 <= i < reads.len() ==> (#[trigger] reads[i]).kind == Kind::Read && reads[i].handle
                == write.handle,
        last.kind == Kind::Read,
        last.handle == write.handle,
        last.ts >= write.ts,
        frame_head_of(last.payload()) matches Some(head) && head.stream_id == frame_head_of(
            write.payload(),
        )->0.stream_id && (head.kind == KIND_DATA || head.kind == KIND_HEADERS) && ends_stream(
            head.flag,
        ),
    ensures
        ({
            let (written, action) = step(handles, own_pid, write);
            let block = block_written(handles[write.handle], write)->0;
            let opened = after_decode(written, block, Some(decoded));
            let request = stream_opened(decoded, write.ts);
            &&& action == ActionView::Decode(block)
            &&& step(run(opened, own_pid, reads), own_pid, last).1 == ActionView::Emit(
                StatsRecordView {
                    method: request.method,
                    host: request.host,
                    url: request.url,
                    delta_ns: (last.ts - write.ts) as u64,
                },
            )
        }),
{
    let (written, action) = step(handles, own_pid, write);
    let block = block_written(handles[write.handle], write)->0;
    let opened = after_decode(written, block, Some(decoded));
    assert(written[write.handle].is_h2);
    assert(opened[write.handle].streams.contains_key(block.stream_id));
    reads_keep_the_stream(opened, own_pid, write.handle, block.stream_id, reads);
}

/// Pruning keeps exactly the handles of the processes that are left, each
/// as it was.
pub proof fn pruning_keeps_the_live(handles: Map<u64, HandleView>, live: Set<u32>, handle: u64)
    ensures
        kept(handles, live).contains_key(handle) <==> handles.contains_key(handle)
            && live.contains(handles[handle].pid),
        kept(handles, live).contains_key(handle) ==> kept(handles, live)[handle]
            == handles[handle],
{
}

} // verus!
