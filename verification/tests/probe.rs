use tls_mon::event::Kind;
use tls_mon::event::TlsEvent;
use tls_mon::event::BUFSIZE;
use tls_mon::probe::copy_len;
use tls_mon::probe::do_sys_openat2;
use tls_mon::probe::ignore;
use tls_mon::probe::is_digit;
use tls_mon::probe::open_fires;
use tls_mon::probe::read_copy_len;
use tls_mon::probe::ssl_free;
use tls_mon::probe::ssl_new;
use tls_mon::probe::ssl_read;
use tls_mon::probe::ssl_read_ex;
use tls_mon::probe::ssl_write;
use tls_mon::probe::Verdict;

fn buffer(path: &str) -> ([u8; BUFSIZE], usize) {
    let mut data = [0xaau8; BUFSIZE];
    data[..path.len()].copy_from_slice(path.as_bytes());
    data[path.len()] = 0;
    (data, path.len() + 1)
}

fn ignored(path: &str) -> bool {
    let (data, len) = buffer(path);
    ignore(&data, len)
}

fn scratch(path: &str) -> TlsEvent {
    let (data, _) = buffer(path);
    TlsEvent { kind: Kind::Read, pid: 1, tgid: 2, ts: 3, handle: 4, len: 5, data }
}

#[test]
fn library_paths_pass_the_filter() {
    assert!(!ignored("/lib/x86_64-linux-gnu/libssl.so.3"));
    assert!(!ignored("/usr/lib/libnode.so.115"));
}

#[test]
fn other_paths_are_ignored() {
    assert!(ignored("relative/libssl.so.3"));
    assert!(ignored("/etc/passwd"));
    assert!(ignored("/usr/lib/libcurl.so.4"));
}

#[test]
fn libssl_takes_one_digit_or_two_with_a_dot() {
    assert!(!ignored("/libssl.so.1"));
    assert!(!ignored("/usr/lib/libssl.so.1.1"));
    assert!(!ignored("/a/libssl.so.0.9"));
    assert!(ignored("/usr/lib/libssl.so"));
    assert!(ignored("/usr/lib/libssl.so."));
    assert!(ignored("/usr/lib/libssl.so.x"));
    assert!(ignored("/usr/lib/libssl.so.11"));
    assert!(ignored("/usr/lib/libssl.so.1.1.1"));
    assert!(ignored("/usr/lib/libssl.so.1.x"));
    assert!(ignored("/usr/lib/libssl.so.1."));
    assert!(ignored("/usr/lib/libssl.so.1-1"));
    assert!(ignored("/usr/lib/libssl_so.1"));
    assert!(ignored("/usr/lib/libssl.so.3/"));
    assert!(ignored("/usr/lib/LIBSSL.SO.3"));
}

#[test]
fn libnode_takes_any_number_of_digits() {
    assert!(!ignored("/libnode.so.1"));
    assert!(!ignored("/usr/lib/libnode.so.72"));
    assert!(!ignored("/usr/lib/libnode.so.0123456789"));
    assert!(ignored("/usr/lib/libnode.so."));
    assert!(ignored("/usr/lib/libnode.so"));
    assert!(ignored("/usr/lib/libnode.so.x"));
    assert!(ignored("/usr/lib/libnode.so.1x"));
    assert!(ignored("/usr/lib/libnode.so.1.1"));
    assert!(ignored("/usr/lib/libnode_so.11"));
}

#[test]
fn the_name_is_matched_at_the_end_of_the_path() {
    assert!(!ignored("/opt/mylibssl.so.3"));
    assert!(!ignored("/opt/x.libnode.so.18"));
    assert!(ignored("/libssl.so.3.bak"));
    assert!(ignored("libssl.so.3"));
    assert!(ignored("libnode.so.18"));
    assert!(ignored("/"));
    assert!(ignored(""));
}

#[test]
fn no_path_at_all_is_ignored() {
    let data = [0u8; BUFSIZE];
    assert!(ignore(&data, 0));
    assert!(ignore(&data, 1));
    assert!(ignore(&data, BUFSIZE));
}

#[test]
fn a_path_that_fills_the_buffer_is_read_to_its_end() {
    let mut data = [b'a'; BUFSIZE];
    data[0] = b'/';
    let name = b"libssl.so.3";
    data[BUFSIZE - 1 - name.len()..BUFSIZE - 1].copy_from_slice(name);
    data[BUFSIZE - 1] = 0;
    assert!(!ignore(&data, BUFSIZE));
    data[BUFSIZE - 2] = b'x';
    assert!(ignore(&data, BUFSIZE));
}

#[test]
fn bytes_behind_the_path_do_not_count() {
    let (mut data, len) = buffer("/etc/passwd");
    data[len..len + 12].copy_from_slice(b"/libssl.so.3");
    assert!(ignore(&data, len));
}

#[test]
fn digits_are_the_ten_decimal_digits() {
    assert!(is_digit(b'0'));
    assert!(is_digit(b'9'));
    assert!(!is_digit(b'/'));
    assert!(!is_digit(b':'));
    assert!(!is_digit(b'a'));
}

#[test]
fn open_probe_fires_for_every_file_descriptor() {
    assert!(open_fires(0));
    assert!(open_fires(3));
    assert!(!open_fires(-1));
    assert!(!open_fires(-14));
}

#[test]
fn open_of_a_library_is_published() {
    let mut event = scratch("/usr/lib/libssl.so.3");
    let verdict = do_sys_openat2(&mut event, 77, (9 << 32) | 8, 21);
    assert_eq!(verdict, Verdict::Publish);
    assert_eq!(event.kind, Kind::OpenAt);
    assert_eq!(event.ts, 77);
    assert_eq!(event.pid, 8);
    assert_eq!(event.tgid, 9);
    assert_eq!(event.handle, 4);
    assert_eq!(event.len, 21);
    assert_eq!(&event.data[..21], b"/usr/lib/libssl.so.3\0");
}

#[test]
fn open_of_another_file_is_skipped() {
    let mut event = scratch("/etc/passwd");
    assert_eq!(do_sys_openat2(&mut event, 77, 8, 12), Verdict::Skip);
    assert_eq!(event.kind, Kind::OpenAt);
    assert_eq!(event.len, 12);
}

#[test]
fn open_whose_path_is_at_a_bad_address_is_skipped_in_silence() {
    let mut event = scratch("/usr/lib/libssl.so.3");
    assert_eq!(do_sys_openat2(&mut event, 77, 8, -14), Verdict::Skip);
    assert_eq!(event.len, 5);
}

#[test]
fn open_whose_path_cannot_be_read_is_a_fault() {
    let mut event = scratch("/usr/lib/libssl.so.3");
    assert_eq!(do_sys_openat2(&mut event, 77, 8, -1), Verdict::Fault);
    assert_eq!(do_sys_openat2(&mut event, 77, 8, -13), Verdict::Fault);
    assert_eq!(do_sys_openat2(&mut event, 77, 8, i64::MIN), Verdict::Fault);
    assert_eq!(event.len, 5);
}

#[test]
fn open_length_is_capped_by_the_buffer() {
    let mut event = scratch("/etc/passwd");
    assert_eq!(do_sys_openat2(&mut event, 77, 8, 5000), Verdict::Skip);
    assert_eq!(event.len, BUFSIZE);
    assert_eq!(do_sys_openat2(&mut event, 77, 8, 0), Verdict::Skip);
    assert_eq!(event.len, 0);
}

#[test]
fn copy_length_is_capped_by_the_buffer() {
    assert_eq!(copy_len(0), 0);
    assert_eq!(copy_len(17), 17);
    assert_eq!(copy_len(4000), 4000);
    assert_eq!(copy_len(4001), 4000);
    assert_eq!(copy_len(-1), 4000);
    assert_eq!(copy_len(i64::MAX), 4000);
    assert_eq!(read_copy_len(0), None);
    assert_eq!(read_copy_len(-1), None);
    assert_eq!(read_copy_len(1), Some(1));
    assert_eq!(read_copy_len(4000), Some(4000));
    assert_eq!(read_copy_len(1 << 40), Some(4000));
}

#[test]
fn new_and_free_note_the_handle() {
    let mut event = scratch("x");
    ssl_new(&mut event, 0xdead_beef, 10, (3 << 32) | 4);
    assert_eq!(event.kind, Kind::New);
    assert_eq!(event.handle, 0xdead_beef);
    assert_eq!(event.ts, 10);
    assert_eq!(event.pid, 4);
    assert_eq!(event.tgid, 3);
    assert_eq!(event.len, 5);
    ssl_free(&mut event, 0xfeed, 11, u64::MAX);
    assert_eq!(event.kind, Kind::Free);
    assert_eq!(event.handle, 0xfeed);
    assert_eq!(event.ts, 11);
    assert_eq!(event.pid, u32::MAX);
    assert_eq!(event.tgid, u32::MAX);
}

#[test]
fn write_takes_the_declared_length() {
    let mut event = scratch("x");
    assert_eq!(ssl_write(&mut event, 1, 2, 3, 100_000, 0), Verdict::Publish);
    assert_eq!(event.kind, Kind::Write);
    assert_eq!(event.handle, 1);
    assert_eq!(event.len, 100_000);
    assert_eq!(ssl_write(&mut event, 1, 2, 3, 7, -14), Verdict::Fault);
    assert_eq!(event.len, 100_000);
    assert_eq!(ssl_write(&mut event, 1, 2, 3, 0, 0), Verdict::Publish);
    assert_eq!(event.len, 0);
}

#[test]
fn read_of_nothing_is_skipped() {
    let mut event = scratch("x");
    assert_eq!(ssl_read(&mut event, 1, 2, 3, 0, 0), Verdict::Skip);
    assert_eq!(ssl_read(&mut event, 1, 2, 3, -1, 0), Verdict::Skip);
    assert_eq!(event.len, 5);
    assert_eq!(ssl_read(&mut event, 1, 2, 3, 20, -14), Verdict::Fault);
    assert_eq!(event.len, 5);
    assert_eq!(ssl_read(&mut event, 1, 2, 3, 20, 0), Verdict::Publish);
    assert_eq!(event.kind, Kind::Read);
    assert_eq!(event.len, 20);
}

#[test]
fn read_ex_takes_the_length_from_the_pointer() {
    let mut event = scratch("x");
    assert_eq!(ssl_read_ex(&mut event, 1, 2, 3, -14, 20, 0), Verdict::Fault);
    assert_eq!(event.kind, Kind::Read);
    assert_eq!(event.len, 5);
    assert_eq!(ssl_read_ex(&mut event, 1, 2, 3, 0, 0, 0), Verdict::Skip);
    assert_eq!(ssl_read_ex(&mut event, 1, 2, 3, 0, 20, -1), Verdict::Fault);
    assert_eq!(event.len, 5);
    assert_eq!(ssl_read_ex(&mut event, 1, 2, 3, 0, 5000, 0), Verdict::Publish);
    assert_eq!(event.len, 5000);
}
