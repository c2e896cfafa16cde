//! The decisions of the probes: which opens are worth an event, and what
//! each TLS call puts into its event.
//!
//! A probe reads registers and user memory and publishes an event.  What it
//! reads comes in here as plain values, and what it is to publish goes out.
use vstd::prelude::*;
use crate::event::Kind;
use crate::event::TlsEvent;
use crate::event::BUFSIZE;

verus! {

/// The byte `/`.
pub const SLASH: u8 = 0x2f;

/// The byte `.`.
pub const DOT: u8 = 0x2e;

/// The code with which a read of user memory reports a bad address.
pub const BAD_ADDRESS: i64 = -14;

/// The bytes of `libssl.so.`.
pub const SSL_STEM: [u8; 10] = [0x6c, 0x69, 0x62, 0x73, 0x73, 0x6c, 0x2e, 0x73, 0x6f, 0x2e];

/// The bytes of `libnode.so.`.
pub const NODE_STEM: [u8; 11] = [0x6c, 0x69, 0x62, 0x6e, 0x6f, 0x64, 0x65, 0x2e, 0x73, 0x6f, 0x2e];

/// The bytes of `libssl.so.`.
pub open spec fn ssl_stem() -> Seq<u8> {
    SSL_STEM@
}

/// The bytes of `libnode.so.`.
pub open spec fn node_stem() -> Seq<u8> {
    NODE_STEM@
}

/// Whether the byte is a decimal digit.
pub open spec fn spec_is_digit(byte: u8) -> bool {
    0x30 <= byte <= 0x39
}

/// Whether the byte is a decimal digit.
#[verifier::when_used_as_spec(spec_is_digit)]
pub fn is_digit(byte: u8) -> (b: bool)
    ensures
        b == spec_is_digit(byte),
{
    0x30 <= byte && byte <= 0x39
}

/// Whether every byte is a decimal digit.
pub open spec fn all_digits(bytes: Seq<u8>) -> bool {
    forall|i: int| 0 <= i < bytes.len() ==> is_digit(#[trigger] bytes[i])
}

/// Whether `name` reads `libssl.so.<digit>`.
pub open spec fn is_libssl(name: Seq<u8>) -> bool {
    &&& name.len() == 11
    &&& name.subrange(0, 10) == ssl_stem()
    &&& is_digit(name[10])
}

/// Whether `name` reads `libssl.so.<digit>.<digit>`.
pub open spec fn is_libssl_minor(name: Seq<u8>) -> bool {
    &&& name.len() == 13
    &&& name.subrange(0, 10) == ssl_stem()
    &&& is_digit(name[10])
    &&& name[11] == DOT
    &&& is_digit(name[12])
}

/// Whether `name` reads `libnode.so.<digits>`, with one digit or more.
pub open spec fn is_libnode(name: Seq<u8>) -> bool {
    &&& name.len() >= 12
    &&& name.subrange(0, 11) == node_stem()
    &&& all_digits(name.subrange(11, name.len() as int))
}

/// Whether `name` is the name of a library that is worth probing.
pub open spec fn is_library_name(name: Seq<u8>) -> bool {
    is_libssl(name) || is_libssl_minor(name) || is_libnode(name)
}

/// The last `n` bytes of the path.
pub open spec fn tail(path: Seq<u8>, n: int) -> Seq<u8> {
    path.subrange(path.len() - n, path.len() as int)
}

/// Whether an open of `path` is worth an event: the path is absolute and
/// ends with the name of a library that is worth probing.
pub open spec fn admitted(path: Seq<u8>) -> bool {
    &&& path.len() > 0
    &&& path[0] == SLASH
    &&& exists|n: int| 0 <= n <= path.len() && is_library_name(#[trigger] tail(path, n))
}

/// Whether the bytes of `data` before `end` end with `stem`.
fn ends_with(data: &[u8; BUFSIZE], end: usize, stem: &[u8]) -> (b: bool)
    requires
        end <= BUFSIZE,
    ensures
        b == (stem@.len() <= end && data@.subrange(end - stem@.len(), end as int) == stem@),
{
    if stem.len() > end {
        return false;
    }
    let start = end - stem.len();
    let mut i: usize = 0;
    while i < stem.len()
        invariant
            i <= stem@.len() <= end <= BUFSIZE,
            start == end - stem@.len(),
            forall|j: int| 0 <= j < i ==> data@[start + j] == stem@[j],
        decreases stem@.len() - i,
    {
        if data[start + i] != stem[i] {
            assert(data@.subrange(start as int, end as int)[i as int] != stem@[i as int]);
            return false;
        }
        i += 1;
    }
    assert(data@.subrange(start as int, end as int) =~= stem@);
    true
}

/// The number of decimal digits that the bytes of `data` before `end` end
/// with.
fn digits_before(data: &[u8; BUFSIZE], end: usize) -> (k: usize)
    requires
        end <= BUFSIZE,
    ensures
        k <= end,
        forall|i: int| end - k <= i < end ==> is_digit(#[trigger] data@[i]),
        k < end ==> !is_digit(data@[end - k - 1]),
{
    let mut k: usize = 0;
    while k < end && is_digit(data[end - k - 1])
        invariant
            k <= end <= BUFSIZE,
            forall|i: int| end - k <= i < end ==> is_digit(#[trigger] data@[i]),
        decreases end - k,
    {
        k += 1;
    }
    k
}

/// Whether the first `n` bytes of `data` end with `libssl.so.<digit>`.
fn ends_with_libssl(data: &[u8; BUFSIZE], n: usize) -> (b: bool)
    requires
        n <= BUFSIZE,
    ensures
        b == (n >= 11 && is_libssl(data@.subrange(n - 11, n as int))),
{
    let stem = SSL_STEM;
    if n < 11 {
        return false;
    }
    let ghost name = data@.subrange(n - 11, n as int);
    assert(name[10] == data@[n - 1]);
    assert(name.subrange(0, 10) =~= data@.subrange(n - 11, n - 1));
    is_digit(data[n - 1]) && ends_with(data, n - 1, stem.as_slice())
}

/// Whether the first `n` bytes of `data` end with
/// `libssl.so.<digit>.<digit>`.
fn ends_with_libssl_minor(data: &[u8; BUFSIZE], n: usize) -> (b: bool)
    requires
        n <= BUFSIZE,
    ensures
        b == (n >= 13 && is_libssl_minor(data@.subrange(n - 13, n as int))),
{
    let stem = SSL_STEM;
    if n < 13 {
        return false;
    }
    let ghost name = data@.subrange(n - 13, n as int);
    assert(name[10] == data@[n - 3]);
    assert(name[11] == data@[n - 2]);
    assert(name[12] == data@[n - 1]);
    assert(name.subrange(0, 10) =~= data@.subrange(n - 13, n - 3));
    is_digit(data[n - 1]) && data[n - 2] == DOT && is_digit(data[n - 3]) && ends_with(
        data,
        n - 3,
        stem.as_slice(),
    )
}

/// A name that reads `libnode.so.<digits>` and ends before `n` has as
/// many digits as there are before `n`.
proof fn lemma_libnode_digits(data: Seq<u8>, n: int, m: int, digits: int)
    requires
        0 <= m <= n <= data.len(),
        is_libnode(data.subrange(n - m, n)),
        0 <= digits <= n,
        forall|i: int| n - digits <= i < n ==> is_digit(#[trigger] data[i]),
        digits < n ==> !is_digit(data[n - digits - 1]),
    ensures
        m == digits + 11,
{
    let name = data.subrange(n - m, n);
    let count = m - 11;
    assert forall|i: int| n - count <= i < n implies is_digit(#[trigger] data[i]) by {
        assert(name.subrange(11, name.len() as int)[i - (n - count)] == data[i]);
    }
    assert(name.subrange(0, 11)[10] == data[n - count - 1]);
    assert(node_stem()[10] == DOT);
    assert(!is_digit(data[n - count - 1]));
    if digits < count {
        assert(is_digit(data[n - digits - 1]));
    }
    if digits > count {
        assert(is_digit(data[n - count - 1]));
    }
}

/// Whether the first `n` bytes of `data` end with `libnode.so.<digits>`.
#[verifier::rlimit(40)]
fn ends_with_libnode(data: &[u8; BUFSIZE], n: usize) -> (b: bool)
    requires
        n <= BUFSIZE,
    ensures
        b == exists|m: int| 0 <= m <= n && is_libnode(#[trigger] data@.subrange(n - m, n as int)),
{
    let stem = NODE_STEM;
    let digits = digits_before(data, n);
    let b = digits >= 1 && ends_with(data, n - digits, stem.as_slice());
    proof {
        if b {
            let name = data@.subrange(n - (digits + 11), n as int);
            assert(name.subrange(0, 11) =~= data@.subrange(n - digits - 11, n - digits));
            assert forall|i: int| 0 <= i < digits implies is_digit(
                #[trigger] name.subrange(11, name.len() as int)[i],
            ) by {
                assert(name.subrange(11, name.len() as int)[i] == data@[n - digits + i]);
            }
            assert(is_libnode(name));
        }
        assert forall|m: int|
            0 <= m <= n && is_libnode(#[trigger] data@.subrange(n - m, n as int)) implies b by {
            lemma_libnode_digits(data@, n as int, m, digits as int);
            let name = data@.subrange(n - m, n as int);
            assert(name.subrange(0, 11) =~= data@.subrange(n - digits - 11, n - digits));
        }
    }
    b
}

/// Whether an open is to be passed over.  `data` holds the path that was
/// opened and its terminator, `len` bytes in all.
///
/// Every process opens a great many files when it starts.  Only the opens
/// of the TLS libraries, by absolute path, are worth an event.
#[verifier::rlimit(40)]
pub fn ignore(data: &[u8; BUFSIZE], len: usize) -> (ignored: bool)
    requires
        len <= BUFSIZE,
    ensures
        ignored == !(len > 0 && admitted(data@.subrange(0, len - 1))),
{
    if len <= 1 {
        return true;
    }
    let n = len - 1;
    let ghost path = data@.subrange(0, n as int);
    assert(path[0] == data@[0]);
    if data[0] != SLASH {
        return true;
    }
    let major = ends_with_libssl(data, n);
    let minor = ends_with_libssl_minor(data, n);
    let numbered = ends_with_libnode(data, n);
    proof {
        assert forall|m: int| 0 <= m <= n implies #[trigger] tail(path, m) == data@.subrange(
            n - m,
            n as int,
        ) by {
            assert(tail(path, m) =~= data@.subrange(n - m, n as int));
        }
        if major {
            assert(is_library_name(tail(path, 11)));
        }
        if minor {
            assert(is_library_name(tail(path, 13)));
        }
        if numbered {
            let m = choose|m: int|
                0 <= m <= n && is_libnode(#[trigger] data@.subrange(n - m, n as int));
            assert(is_library_name(tail(path, m)));
        }
        assert forall|m: int| 0 <= m <= n && is_library_name(#[trigger] tail(path, m)) implies major
            || minor || numbered by {
            assert(tail(path, m) == data@.subrange(n - m, n as int));
            assert(tail(path, m).len() == m);
        }
    }
    !(major || minor || numbered)
}

/// What a probe does with its event.
#[derive(Debug, Clone, Copy, PartialEq, Eq, Structural)]
pub enum Verdict {
    /// Publish the event.
    Publish,
    /// Publish nothing and say nothing.
    Skip,
    /// Publish nothing and log that user memory could not be read.
    Fault,
}

/// The thread in a combined thread and process identifier: its low half.
pub open spec fn pid_of(pid_tgid: u64) -> u32 {
    (pid_tgid % 0x1_0000_0000) as u32
}

/// The process in a combined thread and process identifier: its high
/// half.
pub open spec fn tgid_of(pid_tgid: u64) -> u32 {
    (pid_tgid / 0x1_0000_0000) as u32
}

/// The event with what every probe notes first: kind, handle, time, thread
/// and process.  Length and payload stay.
pub open spec fn stamped(event: TlsEvent, kind: Kind, handle: u64, ts: u64, pid_tgid: u64)
    -> TlsEvent {
    TlsEvent { kind, handle, ts, pid: pid_of(pid_tgid), tgid: tgid_of(pid_tgid), ..event }
}

/// The event with another length.
pub open spec fn with_len(event: TlsEvent, len: usize) -> TlsEvent {
    TlsEvent { len, ..event }
}

/// Notes kind, handle, time, thread and process in the event.
fn stamp(event: &mut TlsEvent, kind: Kind, handle: u64, ts: u64, pid_tgid: u64)
    ensures
        *final(event) == stamped(*old(event), kind, handle, ts, pid_tgid),
{
    assert(pid_tgid & 0xFFFFFFFF == pid_tgid % 0x1_0000_0000) by (bit_vector);
    assert(pid_tgid >> 32 == pid_tgid / 0x1_0000_0000) by (bit_vector);
    event.kind = kind;
    event.handle = handle;
    event.ts = ts;
    event.pid = (pid_tgid & 0xFFFFFFFF) as u32;
    event.tgid = (pid_tgid >> 32) as u32;
}

/// The number of bytes to copy for a call that declares `len` bytes: all
/// of them where the buffer holds as many, else a buffer full.
pub fn copy_len(len: i64) -> (n: u32)
    ensures
        n == if len < 0 || len > BUFSIZE {
            BUFSIZE as int
        } else {
            len as int
        },
{
    if len < 0 || len > 4000 {
        4000
    } else {
        len as u32
    }
}

/// Whether the open probe fires for an open that returned `rc`: it does
/// for every open that gave a file descriptor.
pub fn open_fires(rc: i64) -> (fires: bool)
    ensures
        fires == (rc >= 0),
{
    rc >= 0
}

/// The length of an open event whose path was read with the result
/// `read`, a length and no error.
pub open spec fn open_len(read: i64) -> usize {
    if read > BUFSIZE {
        BUFSIZE
    } else {
        read as usize
    }
}

/// What the open probe does after it has read the path into `data` with
/// the result `read`, a length or an error.
pub open spec fn open_verdict(data: Seq<u8>, read: i64) -> Verdict {
    if read == BAD_ADDRESS {
        Verdict::Skip
    } else if read < 0 {
        Verdict::Fault
    } else if open_len(read) > 0 && admitted(data.subrange(0, open_len(read) - 1)) {
        Verdict::Publish
    } else {
        Verdict::Skip
    }
}

/// The open probe, after the path was read into the event's payload with
/// the result `read`: the length of the path with its terminator, or an
/// error.
///
/// A bad address is expected noise and passed over in silence.  A path
/// that was read is published where [`ignore`] lets it pass.
pub fn do_sys_openat2(event: &mut TlsEvent, ts: u64, pid_tgid: u64, read: i64) -> (verdict: Verdict)
    ensures
        verdict == open_verdict(old(event).data@, read),
        *final(event) == with_len(
            stamped(*old(event), Kind::OpenAt, old(event).handle, ts, pid_tgid),
            if read >= 0 {
                open_len(read)
            } else {
                old(event).len
            },
        ),
{
    let handle = event.handle;
    stamp(event, Kind::OpenAt, handle, ts, pid_tgid);
    if read == BAD_ADDRESS {
        return Verdict::Skip;
    }
    if read < 0 {
        return Verdict::Fault;
    }
    event.len = if read > 4000 {
        BUFSIZE
    } else {
        read as usize
    };
    if ignore(&event.data, event.len) {
        Verdict::Skip
    } else {
        Verdict::Publish
    }
}

/// The probe at the return of `SSL_new`: the new handle is the call's
/// result.  The event is always published.
pub fn ssl_new(event: &mut TlsEvent, handle: u64, ts: u64, pid_tgid: u64)
    ensures
        *final(event) == stamped(*old(event), Kind::New, handle, ts, pid_tgid),
{
    stamp(event, Kind::New, handle, ts, pid_tgid);
}

/// The probe at the entry of `SSL_free`.  The event is always published.
pub fn ssl_free(event: &mut TlsEvent, handle: u64, ts: u64, pid_tgid: u64)
    ensures
        *final(event) == stamped(*old(event), Kind::Free, handle, ts, pid_tgid),
{
    stamp(event, Kind::Free, handle, ts, pid_tgid);
}

/// The probe at the entry of `SSL_write` and of `SSL_write_ex`, after
/// [`copy_len`] bytes of the caller's buffer were copied into the event's
/// payload with the result `copied`.
///
/// The event takes the length that the caller declared, `num`, which may
/// be more than was copied.
pub fn ssl_write(
    event: &mut TlsEvent,
    handle: u64,
    ts: u64,
    pid_tgid: u64,
    num: u64,
    copied: i64,
) -> (verdict: Verdict)
    ensures
        verdict == if copied < 0 {
            Verdict::Fault
        } else {
            Verdict::Publish
        },
        *final(event) == with_len(
            stamped(*old(event), Kind::Write, handle, ts, pid_tgid),
            if copied < 0 {
                old(event).len
            } else {
                num as usize
            },
        ),
{
    stamp(event, Kind::Write, handle, ts, pid_tgid);
    if copied < 0 {
        return Verdict::Fault;
    }
    event.len = num as usize;
    Verdict::Publish
}

/// The number of bytes to copy for a read that gave `len` bytes: none for
/// a read that gave nothing or failed.
pub fn read_copy_len(len: i64) -> (n: Option<u32>)
    ensures
        n == if len > 0 {
            Some(
                (if len > BUFSIZE {
                    BUFSIZE as int
                } else {
                    len as int
                }) as u32,
            )
        } else {
            None
        },
{
    if len > 0 {
        Some(copy_len(len))
    } else {
        None
    }
}

/// What a read probe does for a read that gave `len` bytes, of which
/// [`read_copy_len`] were copied with the result `copied`.
pub open spec fn read_verdict(len: i64, copied: i64) -> Verdict {
    if len <= 0 {
        Verdict::Skip
    } else if copied < 0 {
        Verdict::Fault
    } else {
        Verdict::Publish
    }
}

/// The probe at the return of `SSL_read`, where `len` is the call's
/// result, after the bytes that were read were copied into the event's
/// payload with the result `copied`.  A read that gave nothing is passed
/// over.
pub fn ssl_read(event: &mut TlsEvent, handle: u64, ts: u64, pid_tgid: u64, len: i64, copied: i64)
    -> (verdict: Verdict)
    ensures
        verdict == read_verdict(len, copied),
        *final(event) == with_len(
            stamped(*old(event), Kind::Read, handle, ts, pid_tgid),
            if verdict == Verdict::Publish {
                len as usize
            } else {
                old(event).len
            },
        ),
{
    stamp(event, Kind::Read, handle, ts, pid_tgid);
    if len <= 0 {
        return Verdict::Skip;
    }
    if copied < 0 {
        return Verdict::Fault;
    }
    event.len = len as usize;
    Verdict::Publish
}

/// The probe at the return of `SSL_read_ex`.  The call reports the number
/// of bytes through a pointer: `fetched` is the result of reading the
/// number there, `len` the number.  Where that failed, nothing more is
/// read; else the probe goes on as that of `SSL_read`.
pub fn ssl_read_ex(
    event: &mut TlsEvent,
    handle: u64,
    ts: u64,
    pid_tgid: u64,
    fetched: i64,
    len: u32,
    copied: i64,
) -> (verdict: Verdict)
    ensures
        verdict == if fetched < 0 {
            Verdict::Fault
        } else {
            read_verdict(len as i64, copied)
        },
        *final(event) == with_len(
            stamped(*old(event), Kind::Read, handle, ts, pid_tgid),
            if verdict == Verdict::Publish {
                len as usize
            } else {
                old(event).len
            },
        ),
{
    if fetched < 0 {
        stamp(event, Kind::Read, handle, ts, pid_tgid);
        return Verdict::Fault;
    }
    ssl_read(event, handle, ts, pid_tgid, len as i64, copied)
}

} // verus!
