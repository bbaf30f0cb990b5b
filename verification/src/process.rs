//! Processes: reading them from `/proc`, mapping sockets to their owners,
//! and the caches and trackers the application keeps of them.

use crate::state::ProcessInfo;
use crate::text::{join, join_strings, parse_i64, parse_i64_spec, string_views};
use procfs::process::{FDTarget, Process};
use std::collections::HashMap;
use vstd::prelude::*;

verus! {

broadcast use vstd::std_specs::hash::group_hash_axioms;

/// procfs's handle on one process under `/proc`, carried through as it is.
#[verifier::external_type_specification]
#[verifier::external_body]
pub struct ExProcess(procfs::process::Process);

/// `procfs::process::Process::new`: opens `/proc/<pid>`; fails when the
/// process does not exist or cannot be read. Nothing is stated of the
/// outcome, which depends on the running system.
#[verifier::external_body]
fn proc_open(pid: i32) -> Result<Process, String> {
    Process::new(pid).map_err(|e| e.to_string())
}

/// `procfs::process::all_processes`: one entry per process listed under
/// `/proc`, `None` for one that could not be opened. Nothing is stated of
/// the outcome.
#[verifier::external_body]
fn proc_all() -> Result<Vec<Option<Process>>, String> {
    procfs::process::all_processes()
        .map(|it| it.map(|p| p.ok()).collect())
        .map_err(|e| e.to_string())
}

/// `Process::pid`: the PID the process was opened with.
#[verifier::external_body]
fn proc_pid(p: &Process) -> i32 {
    p.pid()
}

/// `Process::stat`: the parent PID and command name from `/proc/<pid>/stat`.
#[verifier::external_body]
fn proc_stat(p: &Process) -> Result<(i32, String), String> {
    p.stat().map(|s| (s.ppid, s.comm)).map_err(|e| e.to_string())
}

/// `Process::exe`: the executable's path, converted lossily to UTF-8.
#[verifier::external_body]
fn proc_exe(p: &Process) -> Option<String> {
    p.exe().ok().map(|path| path.to_string_lossy().to_string())
}

/// `Process::cmdline`: the command line's arguments.
#[verifier::external_body]
fn proc_cmdline(p: &Process) -> Option<Vec<String>> {
    p.cmdline().ok()
}

/// `Process::environ`: the value of the environment variable `key`,
/// converted lossily to UTF-8.
#[verifier::external_body]
fn proc_environ_var(p: &Process, key: &str) -> Option<String> {
    p.environ().ok().and_then(
        |env| env.get(std::path::Path::new(key).as_os_str()).map(|v| v.to_string_lossy().to_string()),
    )
}

/// `Process::fd`: one entry per open file descriptor, the inode of a
/// socket as `Some`, `None` for a descriptor of another kind or one that
/// could not be read; `None` as a whole when the descriptors cannot be
/// listed.
#[verifier::external_body]
fn proc_fd_targets(p: &Process) -> Option<Vec<Option<u64>>> {
    let fds = p.fd().ok()?;
    let mut out = Vec::new();
    for fd in fds {
        out.push(match fd.map(|f| f.target) {
            Ok(FDTarget::Socket(inode)) => Some(inode),
            Ok(FDTarget::Path(_)) | Ok(FDTarget::Net(_)) | Ok(FDTarget::Pipe(_)) => None,
            Ok(FDTarget::AnonInode(_)) | Ok(FDTarget::MemFD(_)) | Ok(FDTarget::Other(_, _)) => None,
            Err(_) => None,
        });
    }
    Some(out)
}

/// `procfs::net::udp`: the local port and inode of each IPv4 UDP socket.
#[verifier::external_body]
fn udp_sockets() -> Option<Vec<(u16, u64)>> {
    procfs::net::udp().ok().map(|v| v.iter().map(|e| (e.local_address.port(), e.inode)).collect())
}

/// `procfs::net::tcp`: the local port and inode of each IPv4 TCP socket.
#[verifier::external_body]
fn tcp_sockets() -> Option<Vec<(u16, u64)>> {
    procfs::net::tcp().ok().map(|v| v.iter().map(|e| (e.local_address.port(), e.inode)).collect())
}

/// Lists running processes and reads single ones.
pub trait ProcessEnumerator: Send + Sync {
    fn enumerate(&self) -> Result<Vec<ProcessInfo>, String>;

    fn by_pid(&self, pid: i64) -> Result<Option<ProcessInfo>, String>;
}

/// Maps a local port to the process that owns the socket bound to it.
pub trait SocketLookup: Send + Sync {
    fn pid_by_port(&self, local_port: u16) -> Result<Option<i32>, String>;
}

/// Reads processes from `/proc`.
pub struct LinuxProcessEnumerator;

/// Finds socket owners through `/proc/net` and the processes' descriptors.
pub struct LinuxSocketLookup;

/// Detects the system's DNS servers.
pub struct LinuxDnsDetector;

/// Launches applications with DNS redirection.
pub struct LinuxAppLauncher;

/// Whether the kernel probe that observes DNS sends is running.
pub struct LinuxDnsInterceptor {
    is_active: bool,
}

impl LinuxDnsInterceptor {
    /// An interceptor that has not been started.
    pub fn new() -> (r: Self)
        ensures
            !r.active(),
    {
        LinuxDnsInterceptor { is_active: false }
    }

    pub closed spec fn active(&self) -> bool {
        self.is_active
    }

    /// Records that the probe is attached.
    pub fn mark_active(&mut self)
        ensures
            final(self).active(),
    {
        self.is_active = true;
    }

    /// Records that the probe is stopped.
    pub fn mark_inactive(&mut self)
        ensures
            !final(self).active(),
    {
        self.is_active = false;
    }

    pub fn is_active(&self) -> (r: bool)
        ensures
            r == self.active(),
    {
        self.is_active
    }
}

pub open spec fn opt_text(o: Option<String>) -> Option<Seq<char>> {
    match o {
        Some(t) => Some(t@),
        None => None,
    }
}

pub open spec fn opt_parts(o: Option<Vec<String>>) -> Option<Seq<Seq<char>>> {
    match o {
        Some(v) => Some(string_views(v@)),
        None => None,
    }
}

/// `info` describes process `pid` as read: the parent and command name
/// from its `stat`, its executable, its command line's arguments joined by
/// spaces, and the rule its `DNSFLOW_RULE_ID` variable names when that
/// reads as an integer.
pub open spec fn describes(
    info: ProcessInfo,
    pid: i64,
    ppid: i32,
    comm: Seq<char>,
    exe: Option<Seq<char>>,
    cmdline: Option<Seq<Seq<char>>>,
    rule_var: Option<Seq<char>>,
) -> bool {
    &&& info.pid == pid
    &&& info.ppid == Some(ppid as i64)
    &&& info.name@ == comm
    &&& opt_text(info.exe_path) == exe
    &&& opt_text(info.cmdline) == match cmdline {
        Some(parts) => Some(join(parts, " "@)),
        None => None,
    }
    &&& info.rule_id == match rule_var {
        Some(v) => parse_i64_spec(v),
        None => None,
    }
}

/// `info` is the description of process `pid` that some reading of it gives.
pub open spec fn read_as(info: ProcessInfo, pid: i64) -> bool {
    exists|
        ppid: i32,
        comm: Seq<char>,
        exe: Option<Seq<char>>,
        cmdline: Option<Seq<Seq<char>>>,
        rule_var: Option<Seq<char>>,
    | #[trigger] describes(info, pid, ppid, comm, exe, cmdline, rule_var)
}

/// The description of process `pid` from what was read of it.
pub fn describe_process(
    pid: i64,
    ppid: i32,
    comm: String,
    exe: Option<String>,
    cmdline: Option<Vec<String>>,
    rule_var: Option<String>,
) -> (r: ProcessInfo)
    ensures
        describes(r, pid, ppid, comm@, opt_text(exe), opt_parts(cmdline), opt_text(rule_var)),
{
    let ghost exe_v = opt_text(exe);
    let ghost parts_v = opt_parts(cmdline);
    let ghost var_v = opt_text(rule_var);
    let cmd = match cmdline {
        Some(parts) => Some(join_strings(&parts, " ")),
        None => None,
    };
    let rule_id = match rule_var {
        Some(v) => parse_i64(v.as_str()),
        None => None,
    };
    ProcessInfo { pid, ppid: Some(ppid as i64), name: comm, exe_path: exe, cmdline: cmd, rule_id }
}

/// Reads the description of the opened process `p`; fails only when its
/// `stat` cannot be read.
fn describe(p: &Process, pid: i64) -> (r: Result<ProcessInfo, String>)
    ensures
        r matches Ok(info) ==> read_as(info, pid),
{
    let (ppid, comm) = proc_stat(p)?;
    let exe_path = proc_exe(p);
    let cmdline = proc_cmdline(p);
    let rule_var = proc_environ_var(p, "DNSFLOW_RULE_ID");
    let info = describe_process(pid, ppid, comm, exe_path, cmdline, rule_var);
    Ok(info)
}

/// What was read of one process under `/proc`: its PID, the parent PID and
/// command name from its `stat` (none when that could not be read), its
/// executable, its command line's arguments and the value of its
/// `DNSFLOW_RULE_ID` variable.
#[derive(Debug, Clone)]
pub struct ProcRead {
    pub pid: i64,
    pub stat: Option<(i32, String)>,
    pub exe: Option<String>,
    pub cmdline: Option<Vec<String>>,
    pub rule_var: Option<String>,
}

/// `info` describes the process read in `r`, whose `stat` was read.
pub open spec fn describes_read(info: ProcessInfo, r: ProcRead) -> bool {
    match r.stat {
        Some((ppid, comm)) => describes(
            info,
            r.pid,
            ppid,
            comm@,
            opt_text(r.exe),
            opt_parts(r.cmdline),
            opt_text(r.rule_var),
        ),
        None => false,
    }
}

/// The reads whose `stat` could be read, in order.
pub open spec fn readable(reads: Seq<ProcRead>) -> Seq<ProcRead>
    decreases reads.len(),
{
    if reads.len() == 0 {
        Seq::empty()
    } else if reads.last().stat is Some {
        readable(reads.drop_last()).push(reads.last())
    } else {
        readable(reads.drop_last())
    }
}

/// `d` describes, position by position, the processes read in `reads`.
pub open spec fn describes_each(d: Seq<ProcessInfo>, reads: Seq<ProcRead>) -> bool {
    &&& d.len() == reads.len()
    &&& forall|k: int| 0 <= k < d.len() ==> describes_read(#[trigger] d[k], reads[k])
}

/// `v` lists, ordered by PID, one description for each read process whose
/// `stat` could be read, and nothing else.
pub open spec fn lists_readable(v: Seq<ProcessInfo>, reads: Seq<ProcRead>) -> bool {
    &&& sorted_by_pid(v)
    &&& exists|d: Seq<ProcessInfo>|
        #![trigger describes_each(d, readable(reads))]
        describes_each(d, readable(reads)) && v.to_multiset() == d.to_multiset()
}

fn dup_text(o: &Option<String>) -> (r: Option<String>)
    ensures
        opt_text(r) == opt_text(*o),
{
    match o {
        Some(t) => Some(t.clone()),
        None => None,
    }
}

fn dup_parts(o: &Option<Vec<String>>) -> (r: Option<Vec<String>>)
    ensures
        opt_parts(r) == opt_parts(*o),
{
    match o {
        Some(v) => {
            let mut out: Vec<String> = Vec::new();
            let mut i: usize = 0;
            while i < v.len()
                invariant
                    i <= v@.len(),
                    string_views(out@) == string_views(v@.take(i as int)),
                decreases v@.len() - i,
            {
                let ghost before = out@;
                out.push(v[i].clone());
                assert(string_views(out@) =~= string_views(before).push(v@[i as int]@));
                assert(string_views(v@.take(i + 1)) =~= string_views(v@.take(i as int)).push(
                    v@[i as int]@,
                ));
                i = i + 1;
            }
            assert(v@.take(v@.len() as int) =~= v@);
            Some(out)
        },
        None => None,
    }
}

/// The descriptions, ordered by PID, of the processes read whose `stat`
/// could be read; the others are left out.
pub fn describe_all(reads: &Vec<ProcRead>) -> (r: Vec<ProcessInfo>)
    ensures
        lists_readable(r@, reads@),
{
    let mut out: Vec<ProcessInfo> = Vec::new();
    let mut i: usize = 0;
    while i < reads.len()
        invariant
            i <= reads@.len(),
            describes_each(out@, readable(reads@.take(i as int))),
        decreases reads@.len() - i,
    {
        assert(reads@.take(i + 1).drop_last() =~= reads@.take(i as int));
        assert(reads@.take(i + 1).last() == reads@[i as int]);
        let rd = &reads[i];
        match &rd.stat {
            Some(st) => {
                let info = describe_process(
                    rd.pid,
                    st.0,
                    st.1.clone(),
                    dup_text(&rd.exe),
                    dup_parts(&rd.cmdline),
                    dup_text(&rd.rule_var),
                );
                let ghost before = out@;
                out.push(info);
                proof {
                    let kept = readable(reads@.take(i + 1));
                    assert(kept == readable(reads@.take(i as int)).push(reads@[i as int]));
                    assert forall|k: int| 0 <= k < out@.len() implies describes_read(
                        #[trigger] out@[k],
                        kept[k],
                    ) by {
                        if k < before.len() {
                            assert(out@[k] == before[k]);
                        }
                    }
                }
            },
            None => {},
        }
        i = i + 1;
    }
    assert(reads@.take(reads@.len() as int) =~= reads@);
    let sorted = sort_by_pid(&out);
    assert(describes_each(out@, readable(reads@)));
    sorted
}

/// Reads what the description of the opened process `p` needs; the rest
/// is not read when its `stat` cannot be.
fn read_process(p: &Process, pid: i64) -> (r: ProcRead)
    ensures
        r.pid == pid,
{
    match proc_stat(p) {
        Ok(st) => ProcRead {
            pid,
            stat: Some(st),
            exe: proc_exe(p),
            cmdline: proc_cmdline(p),
            rule_var: proc_environ_var(p, "DNSFLOW_RULE_ID"),
        },
        Err(_) => ProcRead { pid, stat: None, exe: None, cmdline: None, rule_var: None },
    }
}

/// `v` is ordered by PID.
pub open spec fn sorted_by_pid(v: Seq<ProcessInfo>) -> bool {
    forall|i: int, j: int| 0 <= i <= j < v.len() ==> v[i].pid <= v[j].pid
}

/// Orders `v` by PID (a stable insertion sort).
pub fn sort_by_pid(v: &Vec<ProcessInfo>) -> (r: Vec<ProcessInfo>)
    ensures
        sorted_by_pid(r@),
        r@.to_multiset() == v@.to_multiset(),
{
    broadcast use vstd::seq_lib::group_to_multiset_ensures;

    let mut r: Vec<ProcessInfo> = Vec::new();
    let mut i: usize = 0;
    while i < v.len()
        invariant
            i <= v@.len(),
            sorted_by_pid(r@),
            r@.to_multiset() == v@.take(i as int).to_multiset(),
        decreases v@.len() - i,
    {
        let x = v[i].duplicate();
        let mut j: usize = r.len();
        while j > 0 && r[j - 1].pid > x.pid
            invariant
                j <= r@.len(),
                sorted_by_pid(r@),
                forall|k: int| j <= k < r@.len() ==> r@[k].pid > x.pid,
            decreases j,
        {
            j = j - 1;
        }
        let ghost before = r@;
        r.insert(j, x);
        proof {
            assert(r@ == before.insert(j as int, x));
            assert(v@.take(i + 1) =~= v@.take(i as int).push(v@[i as int]));
            vstd::seq_lib::to_multiset_insert(before, j as int, x);
            vstd::seq_lib::to_multiset_build(v@.take(i as int), v@[i as int]);
            assert forall|a: int, b: int| 0 <= a <= b < r@.len() implies r@[a].pid <= r@[b].pid by {
                if a < j && b > j {
                    assert(r@[a] == before[a]);
                    assert(r@[b] == before[b - 1]);
                } else if a < j && b == j {
                    assert(r@[a] == before[a]);
                    if j > 0 {
                        assert(before[j - 1].pid <= x.pid);
                        assert(before[a].pid <= before[j - 1].pid);
                    }
                } else if a == j && b > j {
                    assert(r@[b] == before[b - 1]);
                } else if a > j {
                    assert(r@[a] == before[a - 1]);
                    assert(r@[b] == before[b - 1]);
                } else if b < j {
                    assert(r@[a] == before[a]);
                    assert(r@[b] == before[b]);
                }
            }
        }
        i = i + 1;
    }
    assert(v@.take(v@.len() as int) =~= v@);
    r
}

impl ProcessEnumerator for LinuxProcessEnumerator {
    /// Every readable process under `/proc`, ordered by PID, each as
    /// read.
    fn enumerate(&self) -> (r: Result<Vec<ProcessInfo>, String>)
        ensures
            r matches Ok(v) ==> exists|reads: Seq<ProcRead>| #[trigger] lists_readable(v@, reads),
    {
        let procs = proc_all()?;
        let mut reads: Vec<ProcRead> = Vec::new();
        let mut i: usize = 0;
        while i < procs.len()
            invariant
                i <= procs@.len(),
            decreases procs@.len() - i,
        {
            match &procs[i] {
                Some(p) => {
                    let pid = proc_pid(p);
                    reads.push(read_process(p, pid as i64));
                },
                None => {},
            }
            i = i + 1;
        }
        let v = describe_all(&reads);
        let r: Result<Vec<ProcessInfo>, String> = Ok(v);
        assert(r matches Ok(w) && w@ == v@);
        assert(lists_readable(v@, reads@));
        r
    }

    /// The process with PID `pid`, or the error that opening or reading it gave.
    fn by_pid(&self, pid: i64) -> (r: Result<Option<ProcessInfo>, String>)
        ensures
            r matches Ok(o) ==> o matches Some(info) && info.pid == (pid as i32) as i64
                && info.ppid is Some && read_as(info, (pid as i32) as i64),
    {
        let p = proc_open(pid as i32)?;
        let info = describe(&p, (pid as i32) as i64)?;
        Ok(Some(info))
    }
}


/// The owner of the first socket in `entries` bound to `port` whose inode
/// belongs to a known process.
pub open spec fn socket_owner(inodes: Map<u64, i32>, entries: Seq<(u16, u64)>, port: u16) -> Option<
    i32,
>
    decreases entries.len(),
{
    if entries.len() == 0 {
        None
    } else if entries[0].0 == port && inodes.contains_key(entries[0].1) {
        Some(inodes[entries[0].1])
    } else {
        socket_owner(inodes, entries.drop_first(), port)
    }
}

/// Scans a socket table (local port, inode) for the first socket on `port`
/// whose inode is in `inodes`, and returns its owner.
pub fn find_socket_owner(inodes: &HashMap<u64, i32>, entries: &Vec<(u16, u64)>, port: u16) -> (r:
    Option<i32>)
    ensures
        r == socket_owner(inodes@, entries@, port),
{
    let mut i: usize = 0;
    assert(entries@.skip(0) =~= entries@);
    while i < entries.len()
        invariant
            i <= entries@.len(),
            socket_owner(inodes@, entries@, port) == socket_owner(
                inodes@,
                entries@.skip(i as int),
                port,
            ),
        decreases entries@.len() - i,
    {
        assert(entries@.skip(i as int).drop_first() =~= entries@.skip(i + 1));
        assert(entries@.skip(i as int)[0] == entries@[i as int]);
        let (p, inode) = entries[i];
        if p == port {
            match inodes.get(&inode) {
                Some(pid) => {
                    return Some(*pid);
                },
                None => {},
            }
        }
        i = i + 1;
    }
    assert(entries@.skip(i as int) =~= Seq::<(u16, u64)>::empty());
    None
}

/// The owner of each socket inode: `inodes` inserted for `pid`, later
/// inodes in order.
pub open spec fn insert_inodes(m: Map<u64, i32>, inodes: Seq<u64>, pid: i32) -> Map<u64, i32>
    decreases inodes.len(),
{
    if inodes.len() == 0 {
        m
    } else {
        insert_inodes(m, inodes.drop_last(), pid).insert(inodes.last(), pid)
    }
}

/// The owner of each socket inode held by the processes listed (PID and
/// socket inodes), a later process replacing an earlier one.
pub open spec fn inode_map(procs: Seq<(i32, Seq<u64>)>) -> Map<u64, i32>
    decreases procs.len(),
{
    if procs.len() == 0 {
        Map::empty()
    } else {
        insert_inodes(inode_map(procs.drop_last()), procs.last().1, procs.last().0)
    }
}

pub open spec fn proc_inode_views(procs: Seq<(i32, Vec<u64>)>) -> Seq<(i32, Seq<u64>)> {
    procs.map_values(|p: (i32, Vec<u64>)| (p.0, p.1@))
}

/// The process owning a socket on `port`: the owner found in the UDP
/// table, else the one found in the TCP table.
pub open spec fn port_owner(
    procs: Seq<(i32, Seq<u64>)>,
    udp: Seq<(u16, u64)>,
    tcp: Seq<(u16, u64)>,
    port: u16,
) -> Option<i32> {
    match socket_owner(inode_map(procs), udp, port) {
        Some(p) => Some(p),
        None => socket_owner(inode_map(procs), tcp, port),
    }
}

/// The process owning a socket on `port`, given each process's socket
/// inodes and the UDP and TCP socket tables (local port, inode): UDP first.
pub fn owner_by_port(
    procs: &Vec<(i32, Vec<u64>)>,
    udp: &Vec<(u16, u64)>,
    tcp: &Vec<(u16, u64)>,
    port: u16,
) -> (r: Option<i32>)
    ensures
        r == port_owner(proc_inode_views(procs@), udp@, tcp@, port),
{
    let ghost pv = proc_inode_views(procs@);
    let mut map: HashMap<u64, i32> = HashMap::new();
    let mut i: usize = 0;
    while i < procs.len()
        invariant
            i <= procs@.len(),
            pv == proc_inode_views(procs@),
            map@ == inode_map(pv.take(i as int)),
        decreases procs@.len() - i,
    {
        assert(pv.take(i + 1).drop_last() =~= pv.take(i as int));
        let pid = procs[i].0;
        let inodes = &procs[i].1;
        let ghost base = map@;
        let mut k: usize = 0;
        while k < inodes.len()
            invariant
                k <= inodes@.len(),
                map@ == insert_inodes(base, inodes@.take(k as int), pid),
            decreases inodes@.len() - k,
        {
            assert(inodes@.take(k + 1).drop_last() =~= inodes@.take(k as int));
            map.insert(inodes[k], pid);
            k = k + 1;
        }
        assert(inodes@.take(inodes@.len() as int) =~= inodes@);
        assert(pv.take(i + 1).last() == (pid, inodes@));
        i = i + 1;
    }
    assert(pv.take(procs@.len() as int) =~= pv);
    match find_socket_owner(&map, udp, port) {
        Some(pid) => Some(pid),
        None => find_socket_owner(&map, tcp, port),
    }
}

/// The socket inodes among a process's descriptors, in order.
pub open spec fn socket_inodes_of(fds: Seq<Option<u64>>) -> Seq<u64>
    decreases fds.len(),
{
    if fds.len() == 0 {
        Seq::empty()
    } else {
        match fds.last() {
            Some(inode) => socket_inodes_of(fds.drop_last()).push(inode),
            None => socket_inodes_of(fds.drop_last()),
        }
    }
}

/// The socket inodes among a process's descriptors (`Some` entries), in order.
pub fn socket_inodes(fds: &Vec<Option<u64>>) -> (r: Vec<u64>)
    ensures
        r@ == socket_inodes_of(fds@),
{
    let mut r: Vec<u64> = Vec::new();
    let mut i: usize = 0;
    while i < fds.len()
        invariant
            i <= fds@.len(),
            r@ == socket_inodes_of(fds@.take(i as int)),
        decreases fds@.len() - i,
    {
        assert(fds@.take(i + 1).drop_last() =~= fds@.take(i as int));
        assert(fds@.take(i + 1).last() == fds@[i as int]);
        match fds[i] {
            Some(inode) => r.push(inode),
            None => {},
        }
        i = i + 1;
    }
    assert(fds@.take(fds@.len() as int) =~= fds@);
    r
}

/// The processes whose descriptors could be listed, each with its socket
/// inodes, in order.
pub open spec fn held_sockets(reads: Seq<(i32, Option<Vec<Option<u64>>>)>) -> Seq<(i32, Seq<u64>)>
    decreases reads.len(),
{
    if reads.len() == 0 {
        Seq::empty()
    } else {
        match reads.last().1 {
            Some(fds) => held_sockets(reads.drop_last()).push((reads.last().0, socket_inodes_of(fds@))),
            None => held_sockets(reads.drop_last()),
        }
    }
}

/// A socket table as read; one that could not be read counts as empty.
pub open spec fn table_or_empty(t: Option<Vec<(u16, u64)>>) -> Seq<(u16, u64)> {
    match t {
        Some(v) => v@,
        None => Seq::empty(),
    }
}

/// The owner of the socket on `port`, from what was read: each process's
/// PID and descriptors (none when they could not be listed) and the UDP
/// and TCP socket tables (none when they could not be read). UDP first.
pub fn owner_from_reads(
    reads: &Vec<(i32, Option<Vec<Option<u64>>>)>,
    udp: &Option<Vec<(u16, u64)>>,
    tcp: &Option<Vec<(u16, u64)>>,
    port: u16,
) -> (r: Option<i32>)
    ensures
        r == port_owner(held_sockets(reads@), table_or_empty(*udp), table_or_empty(*tcp), port),
{
    let mut held: Vec<(i32, Vec<u64>)> = Vec::new();
    let mut i: usize = 0;
    while i < reads.len()
        invariant
            i <= reads@.len(),
            proc_inode_views(held@) == held_sockets(reads@.take(i as int)),
        decreases reads@.len() - i,
    {
        assert(reads@.take(i + 1).drop_last() =~= reads@.take(i as int));
        assert(reads@.take(i + 1).last() == reads@[i as int]);
        match &reads[i].1 {
            Some(fds) => {
                let inodes = socket_inodes(fds);
                let ghost before = held@;
                held.push((reads[i].0, inodes));
                assert(proc_inode_views(held@) =~= proc_inode_views(before).push(
                    (reads@[i as int].0, socket_inodes_of(fds@)),
                ));
            },
            None => {},
        }
        i = i + 1;
    }
    assert(reads@.take(reads@.len() as int) =~= reads@);
    let empty: Vec<(u16, u64)> = Vec::new();
    let u = match udp {
        Some(v) => v,
        None => &empty,
    };
    let t = match tcp {
        Some(v) => v,
        None => &empty,
    };
    assert(empty@ =~= Seq::<(u16, u64)>::empty());
    owner_by_port(&held, u, t, port)
}

impl SocketLookup for LinuxSocketLookup {
    /// The owner of the IPv4 UDP socket on `local_port`, else of the TCP
    /// one, by the socket inodes of the processes that could be read; a
    /// socket table that cannot be read counts as empty. What is read is
    /// handed to `owner_from_reads`.
    fn pid_by_port(&self, local_port: u16) -> (r: Result<Option<i32>, String>)
        ensures
            r matches Ok(o) ==> exists|
                reads: Seq<(i32, Option<Vec<Option<u64>>>)>,
                udp: Option<Vec<(u16, u64)>>,
                tcp: Option<Vec<(u16, u64)>>,
            | o == #[trigger] port_owner(
                held_sockets(reads),
                table_or_empty(udp),
                table_or_empty(tcp),
                local_port,
            ),
    {
        let procs = proc_all()?;
        let mut reads: Vec<(i32, Option<Vec<Option<u64>>>)> = Vec::new();
        let mut i: usize = 0;
        while i < procs.len()
            invariant
                i <= procs@.len(),
            decreases procs@.len() - i,
        {
            match &procs[i] {
                Some(p) => {
                    reads.push((proc_pid(p), proc_fd_targets(p)));
                },
                None => {},
            }
            i = i + 1;
        }
        let udp = udp_sockets();
        let tcp = tcp_sockets();
        let owner = owner_from_reads(&reads, &udp, &tcp, local_port);
        proof {
            let w = port_owner(held_sockets(reads@), table_or_empty(udp), table_or_empty(tcp), local_port);
            assert(owner == w);
        }
        Ok(owner)
    }
}

/// All readable processes, ordered by PID, each as read.
pub fn get_running_processes() -> (r: Result<Vec<ProcessInfo>, String>)
    ensures
        r matches Ok(v) ==> exists|reads: Seq<ProcRead>| #[trigger] lists_readable(v@, reads),
{
    LinuxProcessEnumerator.enumerate()
}

/// The process with PID `pid`, as read from `/proc`.
pub fn get_process_by_pid(pid: i32) -> (r: Result<Option<ProcessInfo>, String>)
    ensures
        r matches Ok(o) ==> o matches Some(info) && info.pid == pid as i64 && info.ppid is Some
            && read_as(info, pid as i64),
{
    LinuxProcessEnumerator.by_pid(pid as i64)
}

/// The process that owns the socket bound to `local_port`: the owner found
/// in the UDP table, else in the TCP table, by the socket inodes of the
/// processes read; an error only when the process list cannot be read.
pub fn lookup_pid_by_socket(local_port: u16) -> (r: Result<Option<i32>, String>)
    ensures
        r matches Ok(o) ==> exists|
            reads: Seq<(i32, Option<Vec<Option<u64>>>)>,
            udp: Option<Vec<(u16, u64)>>,
            tcp: Option<Vec<(u16, u64)>>,
        | o == #[trigger] port_owner(
            held_sockets(reads),
            table_or_empty(udp),
            table_or_empty(tcp),
            local_port,
        ),
{
    LinuxSocketLookup.pid_by_port(local_port)
}

/// A cache of process names by PID.
#[derive(Debug)]
pub struct ProcessLookup {
    pub cache: HashMap<u32, String>,
}

/// What a process lookup found.
#[derive(Debug, Clone)]
pub struct LookupResult {
    pub pid: u32,
    pub name: Option<String>,
    pub exe_path: Option<String>,
    pub cmdline: Option<String>,
}

/// `res` is what a lookup of process `pid` gives from what was read of it:
/// its command name, its executable, and its command line's arguments
/// joined by spaces.
pub open spec fn looked_up(
    res: LookupResult,
    pid: u32,
    comm: Seq<char>,
    exe: Option<Seq<char>>,
    cmdline: Option<Seq<Seq<char>>>,
) -> bool {
    &&& res.pid == pid
    &&& opt_text(res.name) == Some(comm)
    &&& opt_text(res.exe_path) == exe
    &&& opt_text(res.cmdline) == match cmdline {
        Some(parts) => Some(join(parts, " "@)),
        None => None,
    }
}

/// The lookup result for process `pid` from what was read of it.
pub fn lookup_result(pid: u32, comm: String, exe: Option<String>, cmdline: Option<Vec<String>>) -> (r:
    LookupResult)
    ensures
        looked_up(r, pid, comm@, opt_text(exe), opt_parts(cmdline)),
        r.name == Some(comm),
{
    let cmd = match cmdline {
        Some(parts) => Some(join_strings(&parts, " ")),
        None => None,
    };
    LookupResult { pid, name: Some(comm), exe_path: exe, cmdline: cmd }
}

impl ProcessLookup {
    /// An empty cache.
    pub fn new() -> (r: Self)
        ensures
            r.cache@ == Map::<u32, String>::empty(),
    {
        ProcessLookup { cache: HashMap::new() }
    }

    /// Reads the process `pid` from `/proc` and caches its name.
    pub fn lookup(&mut self, pid: u32) -> (r: Result<LookupResult, String>)
        ensures
            match r {
                Ok(res) => (res.name matches Some(n) && final(self).cache@ == old(self).cache@.insert(pid, n))
                    && exists|
                    comm: Seq<char>,
                    exe: Option<Seq<char>>,
                    cmdline: Option<Seq<Seq<char>>>,
                | #[trigger] looked_up(res, pid, comm, exe, cmdline),
                Err(_) => final(self).cache@ == old(self).cache@,
            },
    {
        let p = proc_open(pid as i32)?;
        let (_ppid, comm) = proc_stat(&p)?;
        let exe_path = proc_exe(&p);
        let cmdline = proc_cmdline(&p);
        self.cache.insert(pid, comm.clone());
        let ghost parts = opt_parts(cmdline);
        let ghost exe_v = opt_text(exe_path);
        let res = lookup_result(pid, comm, exe_path, cmdline);
        assert(looked_up(res, pid, comm@, exe_v, parts));
        Ok(res)
    }

    /// The name of process `pid`: the cached one, else the one `/proc`
    /// gives, which is then cached.
    pub fn get_name(&mut self, pid: u32) -> (r: Option<String>)
        ensures
            old(self).cache@.contains_key(pid) ==> r == Some(old(self).cache@[pid]) && final(self).cache@ == old(self).cache@,
            !old(self).cache@.contains_key(pid) ==> match r {
                Some(n) => final(self).cache@ == old(self).cache@.insert(pid, n),
                None => final(self).cache@ == old(self).cache@,
            },
    {
        match self.cache.get(&pid) {
            Some(name) => {
                return Some(name.clone());
            },
            None => {},
        }
        let p = match proc_open(pid as i32) {
            Ok(p) => p,
            Err(_) => {
                return None;
            },
        };
        let (_ppid, comm) = match proc_stat(&p) {
            Ok(s) => s,
            Err(_) => {
                return None;
            },
        };
        self.cache.insert(pid, comm.clone());
        Some(comm)
    }

    /// Empties the cache.
    pub fn clear_cache(&mut self)
        ensures
            final(self).cache@ == Map::<u32, String>::empty(),
    {
        self.cache.clear();
    }
}

impl Default for ProcessLookup {
    fn default() -> (r: Self)
        ensures
            r.cache@ == Map::<u32, String>::empty(),
    {
        ProcessLookup::new()
    }
}

/// A process being tracked, with the number of DNS queries it made.
#[derive(Debug, Clone)]
pub struct ProcessEntry {
    pub pid: u32,
    pub name: String,
    pub exe_path: Option<String>,
    pub query_count: u64,
}

/// Tracks processes and counts their DNS queries.
#[derive(Debug)]
pub struct ProcessMonitor {
    pub tracked_processes: HashMap<u32, ProcessEntry>,
    pub is_active: bool,
}

/// The entries `track_all` adds for `ps` to `m`, later processes first
/// overwriting earlier ones with the same PID.
pub open spec fn tracked_after(m: Map<u32, ProcessEntry>, ps: Seq<ProcessInfo>) -> Map<
    u32,
    ProcessEntry,
>
    decreases ps.len(),
{
    if ps.len() == 0 {
        m
    } else {
        let p = ps.last();
        tracked_after(m, ps.drop_last()).insert(
            p.pid as u32,
            ProcessEntry { pid: p.pid as u32, name: p.name, exe_path: p.exe_path, query_count: 0 },
        )
    }
}

impl ProcessMonitor {
    /// An inactive monitor that tracks nothing.
    pub fn new() -> (r: Self)
        ensures
            r.tracked_processes@ == Map::<u32, ProcessEntry>::empty(),
            !r.is_active,
    {
        ProcessMonitor { tracked_processes: HashMap::new(), is_active: false }
    }

    /// Tracks every process of `ps` with a query count of zero.
    pub fn track_all(&mut self, ps: &Vec<ProcessInfo>)
        ensures
            final(self).tracked_processes@ == tracked_after(old(self).tracked_processes@, ps@),
            final(self).is_active == old(self).is_active,
    {
        let mut i: usize = 0;
        while i < ps.len()
            invariant
                i <= ps@.len(),
                self.tracked_processes@ == tracked_after(
                    old(self).tracked_processes@,
                    ps@.take(i as int),
                ),
                self.is_active == old(self).is_active,
            decreases ps@.len() - i,
        {
            let p = &ps[i];
            let entry = ProcessEntry {
                pid: p.pid as u32,
                name: p.name.clone(),
                exe_path: crate::state::copy_opt_string(&p.exe_path),
                query_count: 0,
            };
            self.tracked_processes.insert(p.pid as u32, entry);
            assert(ps@.take(i + 1).drop_last() =~= ps@.take(i as int));
            i = i + 1;
        }
        assert(ps@.take(ps@.len() as int) =~= ps@);
    }

    /// Starts tracking every running process; on failure nothing changes.
    pub fn start(&mut self) -> (r: Result<(), String>)
        ensures
            match r {
                Ok(_) => final(self).is_active && exists|ps: Seq<ProcessInfo>|
                    final(self).tracked_processes@ == tracked_after(
                        old(self).tracked_processes@,
                        ps,
                    ),
                Err(e) => *final(self) == *old(self) && e@.len() > 0,
            },
    {
        match get_running_processes() {
            Ok(processes) => {
                self.track_all(&processes);
            },
            Err(e) => {
                let mut msg = "Failed to scan processes: ".to_owned();
                msg.append(e.as_str());
                proof {
                    reveal_strlit("Failed to scan processes: ");
                }
                return Err(msg);
            },
        }
        self.is_active = true;
        Ok(())
    }

    /// Stops tracking: forgets every process and becomes inactive.
    pub fn stop(&mut self) -> (r: Result<(), String>)
        ensures
            r is Ok,
            final(self).tracked_processes@ == Map::<u32, ProcessEntry>::empty(),
            !final(self).is_active,
    {
        self.tracked_processes.clear();
        self.is_active = false;
        Ok(())
    }

    /// Tracks `pid` with a query count of zero, replacing any earlier entry.
    pub fn track_process(&mut self, pid: u32, name: String, exe_path: Option<String>)
        ensures
            final(self).tracked_processes@ == old(self).tracked_processes@.insert(
                pid,
                ProcessEntry { pid, name, exe_path, query_count: 0 },
            ),
            final(self).is_active == old(self).is_active,
    {
        let entry = ProcessEntry { pid, name, exe_path, query_count: 0 };
        self.tracked_processes.insert(pid, entry);
    }

    /// Adds one to the query count of `pid`, when it is tracked.
    pub fn increment_query_count(&mut self, pid: u32)
        requires
            old(self).tracked_processes@.contains_key(pid) ==> old(self).tracked_processes@[pid].query_count < u64::MAX,
        ensures
            old(self).tracked_processes@.contains_key(pid) ==> final(self).tracked_processes@
                == old(self).tracked_processes@.insert(
                pid,
                ProcessEntry {
                    query_count: (old(self).tracked_processes@[pid].query_count + 1) as u64,
                    ..old(self).tracked_processes@[pid]
                },
            ),
            !old(self).tracked_processes@.contains_key(pid) ==> final(self).tracked_processes@
                == old(self).tracked_processes@,
            final(self).is_active == old(self).is_active,
    {
        match self.tracked_processes.remove(&pid) {
            Some(mut entry) => {
                entry.query_count = entry.query_count + 1;
                self.tracked_processes.insert(pid, entry);
                assert(self.tracked_processes@ =~= old(self).tracked_processes@.insert(
                    pid,
                    ProcessEntry {
                        query_count: (old(self).tracked_processes@[pid].query_count + 1) as u64,
                        ..old(self).tracked_processes@[pid]
                    },
                ));
            },
            None => {},
        }
    }
}

impl Default for ProcessMonitor {
    fn default() -> (r: Self)
        ensures
            r.tracked_processes@ == Map::<u32, ProcessEntry>::empty(),
            !r.is_active,
    {
        ProcessMonitor::new()
    }
}

} // verus!
