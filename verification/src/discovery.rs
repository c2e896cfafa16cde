//! Discovery of the TLS library files that processes open.
//!
//! A process names a library by a path of its own mount namespace.  The
//! controller works out where the host sees that file, and says which files
//! are new and want probes attached.  It reads nothing itself: each call
//! returns a [`Lookup`] that tells the caller what to read or do, and the
//! caller reports back with the next call.
use vstd::prelude::*;
use vstd::std_specs::hash::axiom_spec_keys_iter;
use vstd::std_specs::hash::spec_keys_iter;
use vstd::std_specs::iter::IteratorSpec;
use vstd::string::StringExecFns;
use std::collections::HashMap;
use crate::cleanup::has_pid;
use crate::cleanup::lemma_next_of_distinct;
use crate::mounts::is_root;
use crate::mounts::mounts_of;
use crate::mounts::parse_mounts;
use crate::mounts::root_key;
use crate::mounts::root_key_of;
use crate::table::TextMap;
use crate::table::TextSet;
use crate::text::lines;

verus! {

/// A library file that a process opened, as the process names it.
pub struct OpenMsg {
    pub lib_name: String,
    pub pid: u32,
}

/// The model of an [`OpenMsg`].
pub struct OpenMsgView {
    pub lib_name: Seq<char>,
    pub pid: u32,
}

impl View for OpenMsg {
    type V = OpenMsgView;

    open spec fn view(&self) -> OpenMsgView {
        OpenMsgView { lib_name: self.lib_name@, pid: self.pid }
    }
}

/// What the controller asks of its caller, or what it decided.
pub enum Lookup {
    /// Read the link `/proc/<pid>/ns/mnt` and report with
    /// [`Discovery::namespace_read`].
    Namespace { pid: u32 },
    /// Read the file `/proc/<pid>/mounts` and report with
    /// [`Discovery::root_read`].
    Root { pid: u32 },
    /// Read the file `/proc/mounts` and report with
    /// [`Discovery::system_mounts_read`].
    SystemMounts,
    /// The file at `path` is new: attach the probes to it.
    Attach { path: String },
    /// The file is monitored already.
    Known,
    /// The path could not be resolved, or no message is being worked on.
    Dropped,
}

/// The model of a [`Lookup`].
pub enum LookupView {
    Namespace { pid: u32 },
    Root { pid: u32 },
    SystemMounts,
    Attach { path: Seq<char> },
    Known,
    Dropped,
}

impl View for Lookup {
    type V = LookupView;

    open spec fn view(&self) -> LookupView {
        match self {
            Lookup::Namespace { pid } => LookupView::Namespace { pid: *pid },
            Lookup::Root { pid } => LookupView::Root { pid: *pid },
            Lookup::SystemMounts => LookupView::SystemMounts,
            Lookup::Attach { path } => LookupView::Attach { path: path@ },
            Lookup::Known => LookupView::Known,
            Lookup::Dropped => LookupView::Dropped,
        }
    }
}

/// The message that is being worked on.
pub struct PendingView {
    pub msg: OpenMsgView,
    /// Whether the host's mount table was read anew for this message.
    pub refreshed: bool,
}

/// The model of a [`Discovery`].
pub struct DiscoveryView {
    /// The mount namespace of each known process.
    pub namespaces: Map<u32, Seq<char>>,
    /// The key of the root file system of each known mount namespace.
    pub roots: Map<Seq<char>, Seq<char>>,
    /// Where the host sees the file system of each key.
    pub mounts: Map<Seq<char>, Seq<char>>,
    /// The files that have probes attached.
    pub monitored: Set<Seq<char>>,
    pub pending: Option<PendingView>,
}

/// The path at which the host sees `lib_name`, a path inside a file system
/// that the host has at `mount_point`.
pub open spec fn real_path_of(mount_point: Seq<char>, lib_name: Seq<char>) -> Seq<char> {
    if mount_point == seq!['/'] {
        lib_name
    } else {
        mount_point + lib_name
    }
}

/// The state without a message to work on.
pub open spec fn settled(d: DiscoveryView) -> DiscoveryView {
    DiscoveryView { pending: None, ..d }
}

/// What the controller does next for the message it works on: it asks for
/// the first thing that it lacks, or resolves the path and admits it.
pub open spec fn decide(d: DiscoveryView) -> (DiscoveryView, LookupView) {
    match d.pending {
        None => (d, LookupView::Dropped),
        Some(p) => {
            let pid = p.msg.pid;
            let ns = d.namespaces[pid];
            let root = d.roots[ns];
            let path = real_path_of(d.mounts[root], p.msg.lib_name);
            if !d.namespaces.contains_key(pid) {
                (d, LookupView::Namespace { pid })
            } else if !d.roots.contains_key(ns) {
                (d, LookupView::Root { pid })
            } else if !d.mounts.contains_key(root) {
                if p.refreshed {
                    (settled(d), LookupView::Dropped)
                } else {
                    (d, LookupView::SystemMounts)
                }
            } else if d.monitored.contains(path) {
                (settled(d), LookupView::Known)
            } else {
                (
                    DiscoveryView { monitored: d.monitored.insert(path), pending: None, ..d },
                    LookupView::Attach { path },
                )
            }
        },
    }
}

/// The step for a new message.  It takes the place of a message that was
/// still being worked on.
pub open spec fn on_open(d: DiscoveryView, msg: OpenMsgView) -> (DiscoveryView, LookupView) {
    decide(DiscoveryView { pending: Some(PendingView { msg, refreshed: false }), ..d })
}

/// The step for the mount namespace of the message's process: `None`
/// where it could not be read, which drops the message.
pub open spec fn on_namespace(d: DiscoveryView, namespace: Option<Seq<char>>) -> (
    DiscoveryView,
    LookupView,
) {
    match (d.pending, namespace) {
        (None, _) => (d, LookupView::Dropped),
        (Some(p), None) => (settled(d), LookupView::Dropped),
        (Some(p), Some(ns)) => decide(
            DiscoveryView { namespaces: d.namespaces.insert(p.msg.pid, ns), ..d },
        ),
    }
}

/// The step for the mount table of the message's process: `None` where it
/// could not be read.  That, a table without a root entry and a process
/// without known namespace drop the message.
pub open spec fn on_root(d: DiscoveryView, contents: Option<Seq<char>>) -> (
    DiscoveryView,
    LookupView,
) {
    match d.pending {
        None => (d, LookupView::Dropped),
        Some(p) => {
            if d.namespaces.contains_key(p.msg.pid) && contents is Some && root_key_of(
                lines(contents->0),
            ) is Some {
                decide(
                    DiscoveryView {
                        roots: d.roots.insert(
                            d.namespaces[p.msg.pid],
                            root_key_of(lines(contents->0))->0,
                        ),
                        ..d
                    },
                )
            } else {
                (settled(d), LookupView::Dropped)
            }
        },
    }
}

/// The step for the host's mount table, read anew.
pub open spec fn on_system_mounts(d: DiscoveryView, contents: Seq<char>) -> (
    DiscoveryView,
    LookupView,
) {
    match d.pending {
        None => (d, LookupView::Dropped),
        Some(p) => decide(
            DiscoveryView {
                mounts: mounts_of(lines(contents)),
                pending: Some(PendingView { refreshed: true, ..p }),
                ..d
            },
        ),
    }
}

/// The state after pruning, when only the processes in `live` are left:
/// without the other processes, and without the mount namespaces that no
/// process is left in.  The monitored files stay.
pub open spec fn pruned(d: DiscoveryView, live: Set<u32>) -> DiscoveryView {
    let namespaces = d.namespaces.restrict(live);
    DiscoveryView { namespaces, roots: d.roots.restrict(namespaces.values()), ..d }
}

/// The models of the mount namespaces by process.
pub open spec fn namespace_views(namespaces: Map<u32, String>) -> Map<u32, Seq<char>> {
    namespaces.map_values(|ns: String| ns@)
}

/// The path at which the host sees `lib_name`, a path inside a file system
/// that the host has at `mount_point`.
pub fn real_path(mount_point: &String, lib_name: &String) -> (path: String)
    ensures
        path@ == real_path_of(mount_point@, lib_name@),
{
    if is_root(mount_point) {
        lib_name.clone()
    } else {
        mount_point.clone().concat(lib_name.as_str())
    }
}

/// The message that is being worked on.
struct Pending {
    msg: OpenMsg,
    refreshed: bool,
}

/// How far the controller got with its message.
enum Progress {
    /// Something must be read first.
    Ask(Lookup),
    /// It cannot be resolved.
    Unresolved,
    /// It resolves to this path.
    Resolved(String),
}

/// The discovery controller.
pub struct Discovery {
    mount_ns_by_pid: HashMap<u32, String>,
    root_by_ns: TextMap,
    system_mounts: TextMap,
    monitored_libs: TextSet,
    pending: Option<Pending>,
}

impl View for Discovery {
    type V = DiscoveryView;

    closed spec fn view(&self) -> DiscoveryView {
        DiscoveryView {
            namespaces: namespace_views(self.mount_ns_by_pid@),
            roots: self.root_by_ns@,
            mounts: self.system_mounts@,
            monitored: self.monitored_libs@,
            pending: match self.pending {
                Some(p) => Some(PendingView { msg: p.msg@, refreshed: p.refreshed }),
                None => None,
            },
        }
    }
}

impl Discovery {
    /// A controller that knows nothing yet.
    pub fn new() -> (discovery: Discovery)
        ensures
            discovery@ == (DiscoveryView {
                namespaces: Map::empty(),
                roots: Map::empty(),
                mounts: Map::empty(),
                monitored: Set::empty(),
                pending: None,
            }),
    {
        let discovery = Discovery {
            mount_ns_by_pid: HashMap::new(),
            root_by_ns: TextMap::new(),
            system_mounts: TextMap::new(),
            monitored_libs: TextSet::new(),
            pending: None,
        };
        assert(discovery@.namespaces =~= Map::empty());
        discovery
    }

    /// Whether the file at `path` has probes attached.
    pub fn is_monitored(&self, path: &String) -> (monitored: bool)
        ensures
            monitored == self@.monitored.contains(path@),
    {
        self.monitored_libs.contains(path)
    }

    /// How far the message gets with what is known.
    fn progress(&self) -> (progress: Progress)
        requires
            self.pending is Some,
        ensures
            ({
                let d = self@;
                let p = d.pending->0;
                let pid = p.msg.pid;
                let ns = d.namespaces[pid];
                let root = d.roots[ns];
                match progress {
                    Progress::Ask(lookup) => (decide(d).0 == d && decide(d).1 == lookup@ && !(
                    lookup is Dropped) && !(lookup is Known) && !(lookup is Attach)),
                    Progress::Unresolved => {
                        &&& d.namespaces.contains_key(pid)
                        &&& d.roots.contains_key(ns)
                        &&& !d.mounts.contains_key(root)
                        &&& p.refreshed
                    },
                    Progress::Resolved(path) => {
                        &&& d.namespaces.contains_key(pid)
                        &&& d.roots.contains_key(ns)
                        &&& d.mounts.contains_key(root)
                        &&& path@ == real_path_of(d.mounts[root], p.msg.lib_name)
                    },
                }
            }),
    {
        let pending = match &self.pending {
            Some(pending) => pending,
            None => vstd::pervasive::unreached(),
        };
        let pid = pending.msg.pid;
        let ns = match self.mount_ns_by_pid.get(&pid) {
            Some(ns) => ns,
            None => {
                return Progress::Ask(Lookup::Namespace { pid });
            },
        };
        let root = match self.root_by_ns.get(ns) {
            Some(root) => root,
            None => {
                return Progress::Ask(Lookup::Root { pid });
            },
        };
        match self.system_mounts.get(root) {
            Some(mount_point) => Progress::Resolved(real_path(mount_point, &pending.msg.lib_name)),
            None => if pending.refreshed {
                Progress::Unresolved
            } else {
                Progress::Ask(Lookup::SystemMounts)
            },
        }
    }

    /// Goes on with the message that is being worked on.
    fn advance(&mut self) -> (lookup: Lookup)
        ensures
            (final(self)@, lookup@) == decide(old(self)@),
    {
        if self.pending.is_none() {
            return Lookup::Dropped;
        }
        match self.progress() {
            Progress::Ask(lookup) => lookup,
            Progress::Unresolved => {
                self.pending = None;
                Lookup::Dropped
            },
            Progress::Resolved(path) => {
                self.pending = None;
                if self.monitored_libs.insert(path.clone()) {
                    Lookup::Attach { path }
                } else {
                    assert(self@ == settled(old(self)@)) by {
                        assert(self@.monitored =~= old(self)@.monitored);
                    }
                    Lookup::Known
                }
            },
        }
    }

    /// Takes a new message.
    pub fn open(&mut self, msg: OpenMsg) -> (lookup: Lookup)
        ensures
            (final(self)@, lookup@) == on_open(old(self)@, msg@),
    {
        self.pending = Some(Pending { msg, refreshed: false });
        self.advance()
    }

    /// Takes the mount namespace of the process that [`Lookup::Namespace`]
    /// asked for: `None` where the link could not be read.
    pub fn namespace_read(&mut self, namespace: Option<String>) -> (lookup: Lookup)
        ensures
            (final(self)@, lookup@) == on_namespace(
                old(self)@,
                match namespace {
                    Some(ns) => Some(ns@),
                    None => None,
                },
            ),
    {
        let pid = match &self.pending {
            Some(pending) => pending.msg.pid,
            None => {
                return Lookup::Dropped;
            },
        };
        match namespace {
            Some(ns) => {
                let ghost before = self.mount_ns_by_pid@;
                let ghost text = ns@;
                self.mount_ns_by_pid.insert(pid, ns);
                assert(namespace_views(self.mount_ns_by_pid@) =~= namespace_views(before).insert(
                    pid,
                    text,
                ));
                self.advance()
            },
            None => {
                self.pending = None;
                Lookup::Dropped
            },
        }
    }

    /// Takes the mount table of the process that [`Lookup::Root`] asked
    /// for: `None` where the file could not be read.
    pub fn root_read(&mut self, contents: Option<String>) -> (lookup: Lookup)
        ensures
            (final(self)@, lookup@) == on_root(
                old(self)@,
                match contents {
                    Some(c) => Some(c@),
                    None => None,
                },
            ),
    {
        let pid = match &self.pending {
            Some(pending) => pending.msg.pid,
            None => {
                return Lookup::Dropped;
            },
        };
        let key = match contents {
            Some(c) => root_key(c.as_str()),
            None => None,
        };
        let ns = match self.mount_ns_by_pid.get(&pid) {
            Some(ns) => Some(ns.clone()),
            None => None,
        };
        match (ns, key) {
            (Some(ns), Some(key)) => {
                self.root_by_ns.insert(ns, key);
                self.advance()
            },
            _ => {
                self.pending = None;
                Lookup::Dropped
            },
        }
    }

    /// Takes the host's mount table that [`Lookup::SystemMounts`] asked
    /// for.
    pub fn system_mounts_read(&mut self, contents: &str) -> (lookup: Lookup)
        ensures
            (final(self)@, lookup@) == on_system_mounts(old(self)@, contents@),
    {
        let pending = match self.pending.take() {
            Some(pending) => pending,
            None => {
                return Lookup::Dropped;
            },
        };
        self.system_mounts = parse_mounts(contents);
        self.pending = Some(Pending { msg: pending.msg, refreshed: true });
        self.advance()
    }

    /// The known processes, each once, in no particular order.
    pub fn pids(&self) -> (pids: Vec<u32>)
        ensures
            pids@.to_set() == self@.namespaces.dom(),
            pids@.no_duplicates(),
    {
        let mut pids: Vec<u32> = Vec::new();
        for pid in it: self.mount_ns_by_pid.keys()
            invariant
                pids@ == it.seq().take(it.index() as int).unref(),
                it.seq() == spec_keys_iter(&self.mount_ns_by_pid).remaining(),
        {
            pids.push(*pid);
        }
        proof {
            axiom_spec_keys_iter(&self.mount_ns_by_pid);
            assert(pids@ == spec_keys_iter(&self.mount_ns_by_pid).remaining().unref());
            assert(self@.namespaces.dom() =~= self.mount_ns_by_pid@.dom());
        }
        pids
    }

    /// Prunes the state: forgets every process that is not among those in
    /// `live`, and then every mount namespace that no process is left in.
    #[verifier::rlimit(40)]
    pub fn retain_live(&mut self, live: &[u32])
        ensures
            final(self)@ == pruned(old(self)@, live@.to_set()),
    {
        let pids = self.pids();
        let ghost before = self.mount_ns_by_pid@;
        let mut used = TextSet::new();
        let mut i: usize = 0;
        while i < pids.len()
            invariant
                i <= pids@.len(),
                pids@.to_set() == before.dom(),
                pids@.no_duplicates(),
                self.root_by_ns == old(self).root_by_ns,
                self.system_mounts == old(self).system_mounts,
                self.monitored_libs == old(self).monitored_libs,
                self.pending == old(self).pending,
                forall|pid: u32|
                    self.mount_ns_by_pid@.contains_key(pid) <==> before.contains_key(pid) && (
                    pids@.take(i as int).contains(pid) ==> live@.contains(pid)),
                forall|pid: u32|
                    self.mount_ns_by_pid@.contains_key(pid) ==> self.mount_ns_by_pid@[pid]
                        == before[pid],
                forall|ns: Seq<char>|
                    used@.contains(ns) <==> exists|pid: u32|
                        pids@.take(i as int).contains(pid) && live@.contains(pid) && (
                        #[trigger] before[pid])@ == ns,
            decreases pids@.len() - i,
        {
            let pid = pids[i];
            let ghost was_used = used@;
            proof {
                lemma_next_of_distinct(pids@, i as int);
                assert(pids@.to_set().contains(pid));
            }
            if has_pid(live, pid) {
                match self.mount_ns_by_pid.get(&pid) {
                    Some(ns) => {
                        assert(ns == before[pid]);
                        used.insert(ns.clone());
                    },
                    None => {},
                }
            } else {
                self.mount_ns_by_pid.remove(&pid);
            }
            proof {
                let done = pids@.take(i as int);
                let next = pids@.take(i + 1);
                assert forall|ns: Seq<char>|
                    used@.contains(ns) <==> exists|other: u32|
                        next.contains(other) && live@.contains(other) && (
                        #[trigger] before[other])@ == ns by {
                    if used@.contains(ns) {
                        if was_used.contains(ns) {
                            let other = choose|other: u32|
                                done.contains(other) && live@.contains(other) && (
                                #[trigger] before[other])@ == ns;
                            assert(next.contains(other));
                        } else {
                            assert(next.contains(pid) && live@.contains(pid) && before[pid]@
                                == ns);
                        }
                    }
                    if exists|other: u32|
                        next.contains(other) && live@.contains(other) && (
                        #[trigger] before[other])@ == ns {
                        let other = choose|other: u32|
                            next.contains(other) && live@.contains(other) && (
                            #[trigger] before[other])@ == ns;
                        if other != pid {
                            assert(done.contains(other));
                            assert(was_used.contains(ns));
                        } else {
                            assert(used@.contains(before[pid]@));
                        }
                    }
                }
            }
            i += 1;
        }
        self.root_by_ns.retain_keys(&used);
        proof {
            assert(pids@.take(i as int) =~= pids@);
            let target = pruned(old(self)@, live@.to_set());
            assert forall|pid: u32| before.contains_key(pid) implies pids@.contains(pid) by {
                assert(pids@.to_set().contains(pid));
            }
            assert forall|pid: u32| pids@.contains(pid) implies before.contains_key(pid) by {
                assert(pids@.to_set().contains(pid));
            }
            assert(self@.namespaces =~= target.namespaces);
            assert(used@ =~= target.namespaces.values()) by {
                assert forall|ns: Seq<char>| used@.contains(ns) implies target.namespaces.values(
                ).contains(ns) by {
                    let pid = choose|pid: u32|
                        pids@.contains(pid) && live@.contains(pid) && (#[trigger] before[pid])@
                            == ns;
                    assert(target.namespaces.dom().contains(pid) && target.namespaces[pid] == ns);
                }
                assert forall|ns: Seq<char>| target.namespaces.values().contains(ns) implies used@.contains(
                    ns,
                ) by {
                    let pid = choose|pid: u32| #[trigger]
                        target.namespaces.dom().contains(pid) && target.namespaces[pid] == ns;
                    assert(pids@.contains(pid) && live@.contains(pid) && before[pid]@ == ns);
                }
            }
        }
    }
}

/// What the caller tells the controller, one call each.
pub enum Report {
    /// [`Discovery::open`]
    Open(OpenMsgView),
    /// [`Discovery::namespace_read`]
    Namespace(Option<Seq<char>>),
    /// [`Discovery::root_read`]
    Root(Option<Seq<char>>),
    /// [`Discovery::system_mounts_read`]
    SystemMounts(Seq<char>),
    /// [`Discovery::retain_live`]
    Prune(Set<u32>),
}

/// The state after a call, and what the call returns.  Pruning returns
/// nothing, which counts as [`LookupView::Dropped`] here.
pub open spec fn told(d: DiscoveryView, report: Report) -> (DiscoveryView, LookupView) {
    match report {
        Report::Open(msg) => on_open(d, msg),
        Report::Namespace(namespace) => on_namespace(d, namespace),
        Report::Root(contents) => on_root(d, contents),
        Report::SystemMounts(contents) => on_system_mounts(d, contents),
        Report::Prune(live) => (pruned(d, live), LookupView::Dropped),
    }
}

/// The state after a sequence of calls.
pub open spec fn state_after(d: DiscoveryView, reports: Seq<Report>) -> DiscoveryView
    decreases reports.len(),
{
    if reports.len() == 0 {
        d
    } else {
        told(state_after(d, reports.drop_last()), reports.last()).0
    }
}

/// What call number `i` of a sequence of calls returns.
pub open spec fn lookup_at(d: DiscoveryView, reports: Seq<Report>, i: int) -> LookupView {
    told(state_after(d, reports.take(i)), reports[i]).1
}

/// The probes are attached to new files only: a call that says to attach
/// to a path finds the path not monitored and leaves it monitored.
pub proof fn attachment_is_of_a_new_file(d: DiscoveryView, report: Report, path: Seq<char>)
    requires
        told(d, report).1 == (LookupView::Attach { path }),
    ensures
        !d.monitored.contains(path),
        told(d, report).0.monitored.contains(path),
{
}

/// A file that is monitored stays monitored, whatever is called.
pub proof fn monitored_files_stay(d: DiscoveryView, report: Report, path: Seq<char>)
    requires
        d.monitored.contains(path),
    ensures
        told(d, report).0.monitored.contains(path),
{
}

/// A file that is monitored stays so over any sequence of calls.
proof fn monitored_files_stay_for_good(d: DiscoveryView, reports: Seq<Report>, path: Seq<char>)
    requires
        d.monitored.contains(path),
    ensures
        state_after(d, reports).monitored.contains(path),
    decreases reports.len(),
{
    if reports.len() > 0 {
        monitored_files_stay_for_good(d, reports.drop_last(), path);
        monitored_files_stay(state_after(d, reports.drop_last()), reports.last(), path);
    }
}

/// The state after the first `to` calls is the state after the first
/// `from` calls and the calls from `from` up to `to`.
proof fn state_after_in_two_parts(d: DiscoveryView, reports: Seq<Report>, from: int, to: int)
    requires
        0 <= from <= to <= reports.len(),
    ensures
        state_after(d, reports.take(to)) == state_after(
            state_after(d, reports.take(from)),
            reports.subrange(from, to),
        ),
    decreases to - from,
{
    if from == to {
        assert(reports.subrange(from, to) =~= Seq::<Report>::empty());
    } else {
        state_after_in_two_parts(d, reports, from, to - 1);
        assert(reports.take(to).drop_last() =~= reports.take(to - 1));
        assert(reports.subrange(from, to).drop_last() =~= reports.subrange(from, to - 1));
    }
}

/// Admission is idempotent: no file has the probes attached twice.  In any
/// sequence of calls, from any state, a path that one call says to attach
/// to is not named for attachment by any later call, whichever open
/// resolves to it.
pub proof fn no_file_is_attached_twice(
    d: DiscoveryView,
    reports: Seq<Report>,
    i: int,
    j: int,
    path: Seq<char>,
)
    requires
        0 <= i < j < reports.len(),
        lookup_at(d, reports, i) == (LookupView::Attach { path }),
    ensures
        lookup_at(d, reports, j) != (LookupView::Attach { path }),
{
    let before = state_after(d, reports.take(i));
    attachment_is_of_a_new_file(before, reports[i], path);
    assert(reports.take(i + 1).drop_last() =~= reports.take(i));
    assert(state_after(d, reports.take(i + 1)) == told(before, reports[i]).0);
    state_after_in_two_parts(d, reports, i + 1, j);
    monitored_files_stay_for_good(
        state_after(d, reports.take(i + 1)),
        reports.subrange(i + 1, j),
        path,
    );
    if lookup_at(d, reports, j) == (LookupView::Attach { path }) {
        attachment_is_of_a_new_file(state_after(d, reports.take(j)), reports[j], path);
    }
}

/// An open of a file that is monitored already, from a process whose mount
/// namespace, root and mount point are known, is answered at once and
/// attaches nothing.
pub proof fn open_of_a_monitored_file_is_known(d: DiscoveryView, msg: OpenMsgView)
    requires
        d.namespaces.contains_key(msg.pid),
        d.roots.contains_key(d.namespaces[msg.pid]),
        d.mounts.contains_key(d.roots[d.namespaces[msg.pid]]),
        d.monitored.contains(
            real_path_of(d.mounts[d.roots[d.namespaces[msg.pid]]], msg.lib_name),
        ),
    ensures
        on_open(d, msg) == (settled(d), LookupView::Known),
{
}

} // verus!
