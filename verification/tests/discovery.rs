use tls_mon::discovery::real_path;
use tls_mon::discovery::Discovery;
use tls_mon::discovery::Lookup;
use tls_mon::discovery::OpenMsg;
use tls_mon::mounts::is_mount_line;
use tls_mon::mounts::is_root;
use tls_mon::mounts::key_val_from_line;
use tls_mon::mounts::parse_mounts;
use tls_mon::mounts::root_key;
use tls_mon::table::TextMap;
use tls_mon::table::TextSet;

const HOST_MOUNTS: &str = "\
sysfs /sys sysfs rw,nosuid,nodev,noexec,relatime 0 0
proc /proc proc rw,nosuid,nodev,noexec,relatime 0 0
/dev/sda1 / ext4 rw,relatime 0 0
overlay /var/lib/docker/overlay2/abc/merged overlay rw,lowerdir=l,upperdir=u 0 0
";

const HOST_PROCESS: &str = "\
proc /proc proc rw,nosuid,nodev,noexec,relatime 0 0
/dev/sda1 / ext4 rw,relatime 0 0
";

const CONTAINER_PROCESS: &str = "\
overlay / overlay rw,lowerdir=l,upperdir=u 0 0
proc /proc proc rw,nosuid,nodev,noexec,relatime 0 0
";

fn s(text: &str) -> String {
    text.to_string()
}

fn msg(lib_name: &str, pid: u32) -> OpenMsg {
    OpenMsg { lib_name: s(lib_name), pid }
}

fn attached(lookup: Lookup) -> String {
    match lookup {
        Lookup::Attach { path } => path,
        _ => panic!("nothing to attach to"),
    }
}

#[test]
fn mount_line_gives_key_and_mount_point() {
    let (key, value) = key_val_from_line("/dev/sda1 / ext4 rw,relatime 0 0");
    assert_eq!(key, "/dev/sda1:ext4:rw,relatime");
    assert_eq!(value, "/");
    let (key, value) = key_val_from_line("  overlay\t/merged   overlay rw  ");
    assert_eq!(key, "overlay:overlay:rw");
    assert_eq!(value, "/merged");
    assert!(is_mount_line("a b c d"));
    assert!(is_mount_line("a b c d e f g"));
    assert!(!is_mount_line("a b c"));
    assert!(!is_mount_line(""));
    assert!(!is_mount_line("   \t "));
}

#[test]
fn root_key_is_that_of_the_first_entry_mounted_at_root() {
    assert_eq!(root_key(HOST_PROCESS), Some(s("/dev/sda1:ext4:rw,relatime")));
    assert_eq!(root_key(CONTAINER_PROCESS), Some(s("overlay:overlay:rw,lowerdir=l,upperdir=u")));
    assert_eq!(root_key("a / b c\nd / e f\n"), Some(s("a:b:c")));
    assert_eq!(root_key("proc /proc proc rw 0 0\n"), None);
    assert_eq!(root_key(""), None);
    // the mount point counts, not a slash elsewhere in the line
    assert_eq!(root_key("/ /mnt / /\n"), None);
    // a line of fewer than four fields is no entry
    assert_eq!(root_key("rootfs / rootfs\nx / y z\n"), Some(s("x:y:z")));
    assert_eq!(root_key("x / y z"), Some(s("x:y:z")));
    assert_eq!(root_key("x / y z\r\n"), Some(s("x:y:z")));
}

#[test]
fn mount_table_maps_keys_to_mount_points() {
    let mounts = parse_mounts(HOST_MOUNTS);
    assert_eq!(mounts.get(&s("/dev/sda1:ext4:rw,relatime")), Some(&s("/")));
    assert_eq!(
        mounts.get(&s("overlay:overlay:rw,lowerdir=l,upperdir=u")),
        Some(&s("/var/lib/docker/overlay2/abc/merged"))
    );
    assert_eq!(mounts.get(&s("sysfs:sysfs:rw,nosuid,nodev,noexec,relatime")), Some(&s("/sys")));
    assert_eq!(mounts.get(&s("nothing")), None);
    // of two entries with one key the later counts
    let mounts = parse_mounts("a /one b c\nshort line\na /two b c\n");
    assert_eq!(mounts.get(&s("a:b:c")), Some(&s("/two")));
    assert_eq!(parse_mounts("").get(&s("a:b:c")), None);
}

#[test]
fn real_path_is_under_the_mount_point() {
    assert_eq!(real_path(&s("/"), &s("/usr/lib/libssl.so.3")), "/usr/lib/libssl.so.3");
    assert_eq!(real_path(&s("/merged"), &s("/usr/lib/libssl.so.3")), "/merged/usr/lib/libssl.so.3");
    assert_eq!(real_path(&s(""), &s("/x")), "/x");
    assert_eq!(real_path(&s("//"), &s("/x")), "///x");
    assert!(is_root(&s("/")));
    assert!(!is_root(&s("")));
    assert!(!is_root(&s("/a")));
}

#[test]
fn library_on_the_host_is_attached_at_its_own_path() {
    let mut d = Discovery::new();
    assert!(matches!(d.open(msg("/usr/lib/libssl.so.3", 10)), Lookup::Namespace { pid: 10 }));
    assert!(matches!(d.namespace_read(Some(s("mnt:[4026531840]"))), Lookup::Root { pid: 10 }));
    assert!(matches!(d.root_read(Some(s(HOST_PROCESS))), Lookup::SystemMounts));
    let path = attached(d.system_mounts_read(HOST_MOUNTS));
    assert_eq!(path, "/usr/lib/libssl.so.3");
    assert!(d.is_monitored(&path));
}

#[test]
fn library_in_a_container_is_attached_where_the_host_sees_it() {
    let mut d = Discovery::new();
    d.open(msg("/usr/lib/libnode.so.115", 20));
    d.namespace_read(Some(s("mnt:[4026532000]")));
    d.root_read(Some(s(CONTAINER_PROCESS)));
    let path = attached(d.system_mounts_read(HOST_MOUNTS));
    assert_eq!(path, "/var/lib/docker/overlay2/abc/merged/usr/lib/libnode.so.115");
}

#[test]
fn second_open_of_a_file_attaches_nothing() {
    let mut d = Discovery::new();
    d.open(msg("/usr/lib/libssl.so.3", 10));
    d.namespace_read(Some(s("mnt:[1]")));
    d.root_read(Some(s(HOST_PROCESS)));
    attached(d.system_mounts_read(HOST_MOUNTS));
    // the same process again: everything is known
    assert!(matches!(d.open(msg("/usr/lib/libssl.so.3", 10)), Lookup::Known));
    // another process of the same namespace
    assert!(matches!(d.open(msg("/usr/lib/libssl.so.3", 11)), Lookup::Namespace { pid: 11 }));
    assert!(matches!(d.namespace_read(Some(s("mnt:[1]"))), Lookup::Known));
    // another file of the same process is new
    assert_eq!(attached(d.open(msg("/usr/lib/libssl.so.1.1", 10))), "/usr/lib/libssl.so.1.1");
    assert!(matches!(d.open(msg("/usr/lib/libssl.so.1.1", 11)), Lookup::Known));
}

#[test]
fn two_names_of_one_file_attach_once() {
    let mut d = Discovery::new();
    // on the host the container's file has the long path
    d.open(msg("/var/lib/docker/overlay2/abc/merged/lib/libssl.so.3", 10));
    d.namespace_read(Some(s("mnt:[1]")));
    d.root_read(Some(s(HOST_PROCESS)));
    attached(d.system_mounts_read(HOST_MOUNTS));
    // in the container it has the short one
    d.open(msg("/lib/libssl.so.3", 20));
    d.namespace_read(Some(s("mnt:[2]")));
    assert!(matches!(d.root_read(Some(s(CONTAINER_PROCESS))), Lookup::Known));
}

#[test]
fn process_that_is_gone_drops_the_message() {
    let mut d = Discovery::new();
    d.open(msg("/usr/lib/libssl.so.3", 10));
    assert!(matches!(d.namespace_read(None), Lookup::Dropped));
    // the next open of the process asks again
    assert!(matches!(d.open(msg("/usr/lib/libssl.so.3", 10)), Lookup::Namespace { pid: 10 }));
    d.namespace_read(Some(s("mnt:[1]")));
    assert!(matches!(d.root_read(None), Lookup::Dropped));
    assert!(matches!(d.open(msg("/usr/lib/libssl.so.3", 10)), Lookup::Root { pid: 10 }));
    assert!(matches!(d.root_read(Some(s("proc /proc proc rw 0 0\n"))), Lookup::Dropped));
    assert!(!d.is_monitored(&s("/usr/lib/libssl.so.3")));
}

#[test]
fn file_system_that_the_host_does_not_see_drops_the_message() {
    let mut d = Discovery::new();
    d.open(msg("/usr/lib/libssl.so.3", 20));
    d.namespace_read(Some(s("mnt:[2]")));
    assert!(matches!(d.root_read(Some(s("tmpfs / tmpfs rw 0 0\n"))), Lookup::SystemMounts));
    // the host's table is read once for a message
    assert!(matches!(d.system_mounts_read(HOST_MOUNTS), Lookup::Dropped));
    // and once again for the next
    assert!(matches!(d.open(msg("/usr/lib/libssl.so.3", 20)), Lookup::SystemMounts));
    let with_tmpfs = format!("{}tmpfs /run/t tmpfs rw 0 0\n", HOST_MOUNTS);
    assert_eq!(attached(d.system_mounts_read(&with_tmpfs)), "/run/t/usr/lib/libssl.so.3");
}

#[test]
fn reports_without_a_message_are_dropped() {
    let mut d = Discovery::new();
    assert!(matches!(d.namespace_read(Some(s("mnt:[1]"))), Lookup::Dropped));
    assert!(matches!(d.root_read(Some(s(HOST_PROCESS))), Lookup::Dropped));
    assert!(matches!(d.system_mounts_read(HOST_MOUNTS), Lookup::Dropped));
    assert!(d.pids().is_empty());
    // a root for a process without namespace
    d.open(msg("/usr/lib/libssl.so.3", 10));
    assert!(matches!(d.root_read(Some(s(HOST_PROCESS))), Lookup::Dropped));
    assert!(matches!(d.namespace_read(Some(s("mnt:[1]"))), Lookup::Dropped));
}

#[test]
fn cleanup_forgets_dead_processes_and_unused_namespaces() {
    let mut d = Discovery::new();
    d.open(msg("/usr/lib/libssl.so.3", 10));
    d.namespace_read(Some(s("mnt:[1]")));
    d.root_read(Some(s(HOST_PROCESS)));
    attached(d.system_mounts_read(HOST_MOUNTS));
    d.open(msg("/usr/lib/libssl.so.3", 20));
    d.namespace_read(Some(s("mnt:[2]")));
    attached(d.root_read(Some(s(CONTAINER_PROCESS))));
    d.open(msg("/usr/lib/libssl.so.3", 21));
    assert!(matches!(d.namespace_read(Some(s("mnt:[2]"))), Lookup::Known));
    let mut pids = d.pids();
    pids.sort();
    assert_eq!(pids, vec![10, 20, 21]);

    d.retain_live(&[20, 21, 99]);
    let mut pids = d.pids();
    pids.sort();
    assert_eq!(pids, vec![20, 21]);
    // namespace 2 is still in use, its root is known
    assert!(matches!(d.open(msg("/usr/lib/libssl.so.3", 20)), Lookup::Known));
    // process 10 is forgotten
    assert!(matches!(d.open(msg("/usr/lib/libssl.so.3", 10)), Lookup::Namespace { pid: 10 }));
    // and so is the root of its namespace, which no process was left in
    assert!(matches!(d.namespace_read(Some(s("mnt:[1]"))), Lookup::Root { pid: 10 }));
    // the monitored files stay
    assert!(matches!(d.root_read(Some(s(HOST_PROCESS))), Lookup::Known));

    d.retain_live(&[]);
    assert!(d.pids().is_empty());
    assert!(d.is_monitored(&s("/usr/lib/libssl.so.3")));
    assert!(d.is_monitored(&s("/var/lib/docker/overlay2/abc/merged/usr/lib/libssl.so.3")));
}

#[test]
fn text_map_keeps_the_last_value_of_a_key() {
    let mut map = TextMap::new();
    assert_eq!(map.get(&s("a")), None);
    map.insert(s("a"), s("1"));
    map.insert(s("b"), s("2"));
    map.insert(s("a"), s("3"));
    assert_eq!(map.get(&s("a")), Some(&s("3")));
    assert_eq!(map.get(&s("b")), Some(&s("2")));
    assert_eq!(map.get(&s("")), None);
    let mut keep = TextSet::new();
    keep.insert(s("a"));
    map.retain_keys(&keep);
    assert_eq!(map.get(&s("a")), Some(&s("3")));
    assert_eq!(map.get(&s("b")), None);
}

#[test]
fn text_set_takes_each_text_once() {
    let mut set = TextSet::new();
    assert!(!set.contains(&s("a")));
    assert!(set.insert(s("a")));
    assert!(!set.insert(s("a")));
    assert!(set.insert(s("")));
    assert!(set.contains(&s("a")));
    assert!(set.contains(&s("")));
    assert!(!set.contains(&s("b")));
}
