//! The local DNS proxy: where it listens, how it reads a query, where the
//! query is sent, and how the answer and the log entry are made.

use crate::process::{
    get_process_by_pid, held_sockets, inode_map, lookup_pid_by_socket, port_owner, read_as, table_or_empty,
};
use crate::rules::{pid_lookup_outcome, RulesEngine};
use crate::state::{DnsQueryLog, DnsServer, ProcessInfo};
use crate::text::{decimal, push_decimal};
use hickory_proto::op::{Message, MessageType, Query};
use hickory_proto::rr::rdata::A;
use hickory_proto::rr::{DNSClass, Name, RData, Record, RecordType};
use vstd::prelude::*;

verus! {

/// The address the proxy prefers to listen on.
pub const PROXY_LISTEN_IP: &'static str = "127.0.0.53";

/// The port the proxy listens on.
pub const PROXY_LISTEN_PORT: u16 = 53;

/// The resolver configuration that launched applications see.
pub const PROXY_RESOLV_CONF: &'static str = "/tmp/dnsflow_resolv.conf";

/// The upstream used when a rule's server address is not a valid IP.
pub const FALLBACK_UPSTREAM: &'static str = "8.8.8.8:53";

/// The time to live, in seconds, of every answer the proxy sends.
pub const ANSWER_TTL: u32 = 300;

/// `ip:port` of a socket address given as an IP string and a port.
pub open spec fn socket_addr_text(ip: Seq<char>, port: u16) -> Seq<char> {
    ip + ":"@ + decimal(port as nat)
}

/// Formats `ip:port`.
pub fn format_socket_addr(ip: &str, port: u16) -> (r: String)
    ensures
        r@ == socket_addr_text(ip@, port),
{
    let mut r = ip.to_owned();
    r.append(":");
    push_decimal(&mut r, port as u64);
    r
}

/// The default listen address of the proxy, `127.0.0.53:53`.
pub fn proxy_addr() -> (r: String)
    ensures
        r@ == socket_addr_text(PROXY_LISTEN_IP@, PROXY_LISTEN_PORT),
{
    format_socket_addr(PROXY_LISTEN_IP, PROXY_LISTEN_PORT)
}

/// The contents of the resolver configuration that points at the proxy.
pub open spec fn resolv_conf_text(ip: Seq<char>) -> Seq<char> {
    "nameserver "@ + ip + "\n"@
}

/// The resolver configuration naming `ip` as the only name server.
pub fn proxy_resolv_conf(ip: &str) -> (r: String)
    ensures
        r@ == resolv_conf_text(ip@),
{
    let mut r = "nameserver ".to_owned();
    r.append(ip);
    r.append("\n");
    r
}

/// The upstream the proxy asks for a query routed to `server`: its address
/// on port 53.
pub fn upstream_address(server: &DnsServer) -> (r: String)
    ensures
        r@ == server.address@ + ":53"@,
{
    let mut r = server.address.clone();
    r.append(":53");
    r
}

/// One question of a DNS query: the labels of the name as on the wire, the
/// name as text, its type and its class.
#[derive(Debug, Clone)]
pub struct DnsQuestion {
    pub labels: Vec<Vec<u8>>,
    pub name: String,
    pub qtype: u16,
    pub qclass: u16,
}

/// A decoded DNS query: its id and its questions.
#[derive(Debug, Clone)]
pub struct DnsQuery {
    pub id: u16,
    pub questions: Vec<DnsQuestion>,
}

pub open spec fn labels_view(labels: Seq<Vec<u8>>) -> Seq<Seq<u8>> {
    labels.map_values(|l: Vec<u8>| l@)
}

pub open spec fn question_view(q: DnsQuestion) -> (Seq<Seq<u8>>, Seq<char>, u16, u16) {
    (labels_view(q.labels@), q.name@, q.qtype, q.qclass)
}

pub open spec fn query_view(q: DnsQuery) -> (u16, Seq<(Seq<Seq<u8>>, Seq<char>, u16, u16)>) {
    (q.id, q.questions@.map_values(|x: DnsQuestion| question_view(x)))
}

/// What hickory's `Message::from_vec` reads from a datagram: the id and the
/// questions, or nothing when the datagram does not decode.
pub uninterp spec fn hickory_read_query(bytes: Seq<u8>) -> Option<
    (u16, Seq<(Seq<Seq<u8>>, Seq<char>, u16, u16)>),
>;

/// The bytes hickory's `Message::to_vec` writes for a response with the
/// given id, one question (name labels, type, class) and one A record per
/// address with the given time to live, or nothing when it cannot be written.
pub uninterp spec fn hickory_a_response(
    id: u16,
    labels: Seq<Seq<u8>>,
    qtype: u16,
    qclass: u16,
    ttl: u32,
    addrs: Seq<[u8; 4]>,
) -> Option<Seq<u8>>;

/// `Message::from_vec` on the datagram, then the message's id and, for
/// each question in order, its name's labels (`Name::iter`), its name as
/// text (`Name`'s `Display`), its type and its class as numbers. The result
/// is named, as a function of the bytes alone.
#[verifier::external_body]
fn read_query(bytes: &[u8]) -> (r: Option<DnsQuery>)
    ensures
        match r {
            Some(q) => hickory_read_query(bytes@) == Some(query_view(q)),
            None => hickory_read_query(bytes@) is None,
        },
{
    match Message::from_vec(bytes) {
        Ok(m) => Some(DnsQuery {
            id: m.id(),
            questions: m.queries().iter().map(|q| DnsQuestion {
                labels: q.name().iter().map(|l| l.to_vec()).collect(),
                name: q.name().to_string(),
                qtype: u16::from(q.query_type()),
                qclass: u16::from(q.query_class()),
            }).collect(),
        }),
        Err(_) => None,
    }
}

/// Builds with hickory a response message: `Message::new`, the id, the
/// response type, the question rebuilt from its labels (`Name::from_labels`),
/// type and class, one `Record::from_rdata` A record per address, then
/// `Message::to_vec`. The result is named, as a function of the arguments.
#[verifier::external_body]
fn write_a_response(id: u16, q: &DnsQuestion, ttl: u32, addrs: &Vec<[u8; 4]>) -> (r: Option<
    Vec<u8>,
>)
    ensures
        match r {
            Some(v) => hickory_a_response(id, labels_view(q.labels@), q.qtype, q.qclass, ttl, addrs@)
                == Some(v@),
            None => hickory_a_response(
                id,
                labels_view(q.labels@),
                q.qtype,
                q.qclass,
                ttl,
                addrs@,
            ) is None,
        },
{
    let name = match Name::from_labels(q.labels.iter().map(|l| l.as_slice())) {
        Ok(n) => n,
        Err(_) => return None,
    };
    let mut query = Query::query(name.clone(), RecordType::from(q.qtype));
    query.set_query_class(DNSClass::from(q.qclass));
    let mut m = Message::new();
    m.set_id(id).set_message_type(MessageType::Response).add_query(query);
    m.add_answers(addrs.iter().map(|a| Record::from_rdata(name.clone(), ttl, RData::A(A::new(a[0], a[1], a[2], a[3])))));
    m.to_vec().ok()
}

/// The first question of a decoded query, with the query's id.
pub open spec fn first_question(
    q: Option<(u16, Seq<(Seq<Seq<u8>>, Seq<char>, u16, u16)>)>,
) -> Option<(u16, (Seq<Seq<u8>>, Seq<char>, u16, u16))> {
    match q {
        Some((id, qs)) => if qs.len() > 0 {
            Some((id, qs[0]))
        } else {
            None
        },
        None => None,
    }
}

/// The id and the first question of a datagram, when it decodes as a DNS
/// message with at least one question.
pub fn read_question(bytes: &[u8]) -> (r: Option<(u16, DnsQuestion)>)
    ensures
        match r {
            Some((id, q)) => first_question(hickory_read_query(bytes@)) == Some(
                (id, question_view(q)),
            ),
            None => first_question(hickory_read_query(bytes@)) is None,
        },
{
    match read_query(bytes) {
        Some(m) => {
            let id = m.id;
            let mut qs = m.questions;
            if qs.len() > 0 {
                let q = qs.remove(0);
                Some((id, q))
            } else {
                None
            }
        },
        None => None,
    }
}

/// An address an upstream resolved a name to: IPv4 octets, or the text of
/// any other address.
#[derive(Debug, Clone)]
pub enum ResolvedIp {
    V4([u8; 4]),
    Other(String),
}

/// Dotted-decimal text of an IPv4 address.
pub open spec fn ipv4_text(a: [u8; 4]) -> Seq<char> {
    decimal(a[0] as nat) + "."@ + decimal(a[1] as nat) + "."@ + decimal(a[2] as nat) + "."@
        + decimal(a[3] as nat)
}

/// Formats an IPv4 address as `a.b.c.d`.
pub fn format_ipv4(a: [u8; 4]) -> (r: String)
    ensures
        r@ == ipv4_text(a),
{
    let mut r = String::new();
    push_decimal(&mut r, a[0] as u64);
    r.append(".");
    push_decimal(&mut r, a[1] as u64);
    r.append(".");
    push_decimal(&mut r, a[2] as u64);
    r.append(".");
    push_decimal(&mut r, a[3] as u64);
    assert(r@ =~= ipv4_text(a));
    r
}

/// The text of a resolved address.
pub open spec fn resolved_text(ip: ResolvedIp) -> Seq<char> {
    match ip {
        ResolvedIp::V4(a) => ipv4_text(a),
        ResolvedIp::Other(s) => s@,
    }
}

/// Formats a resolved address.
pub fn format_resolved(ip: &ResolvedIp) -> (r: String)
    ensures
        r@ == resolved_text(*ip),
{
    match ip {
        ResolvedIp::V4(a) => format_ipv4(*a),
        ResolvedIp::Other(s) => s.clone(),
    }
}

/// The IPv4 addresses among `ips`, in order.
pub open spec fn v4_only(ips: Seq<ResolvedIp>) -> Seq<[u8; 4]>
    decreases ips.len(),
{
    if ips.len() == 0 {
        Seq::empty()
    } else {
        let rest = v4_only(ips.drop_last());
        match ips.last() {
            ResolvedIp::V4(a) => rest.push(a),
            ResolvedIp::Other(_) => rest,
        }
    }
}

/// The IPv4 addresses among `ips`, in order: those the proxy answers with.
pub fn ipv4_answers(ips: &Vec<ResolvedIp>) -> (r: Vec<[u8; 4]>)
    ensures
        r@ == v4_only(ips@),
{
    let mut r: Vec<[u8; 4]> = Vec::new();
    let mut i: usize = 0;
    while i < ips.len()
        invariant
            i <= ips@.len(),
            r@ == v4_only(ips@.take(i as int)),
        decreases ips@.len() - i,
    {
        assert(ips@.take(i + 1).drop_last() =~= ips@.take(i as int));
        match &ips[i] {
            ResolvedIp::V4(a) => {
                r.push(*a);
            },
            ResolvedIp::Other(_) => {},
        }
        i = i + 1;
    }
    assert(ips@.take(ips@.len() as int) =~= ips@);
    r
}

/// The response to question `q` of query `id`: one A record, with the
/// proxy's time to live, for each IPv4 address among `resolved`.
pub fn answer_bytes(id: u16, q: &DnsQuestion, resolved: &Vec<ResolvedIp>) -> (r: Option<Vec<u8>>)
    ensures
        match r {
            Some(v) => hickory_a_response(
                id,
                labels_view(q.labels@),
                q.qtype,
                q.qclass,
                ANSWER_TTL,
                v4_only(resolved@),
            ) == Some(v@),
            None => hickory_a_response(
                id,
                labels_view(q.labels@),
                q.qtype,
                q.qclass,
                ANSWER_TTL,
                v4_only(resolved@),
            ) is None,
        },
{
    let addrs = ipv4_answers(resolved);
    write_a_response(id, q, ANSWER_TTL, &addrs)
}

/// The query-log entry for an answered query: the name, the process and
/// application it came from, the server used, the first resolved address,
/// the latency and the time.
pub fn query_log_entry(
    domain: &str,
    pid: Option<i32>,
    app_name: Option<String>,
    server_id: Option<i64>,
    resolved: &Vec<ResolvedIp>,
    latency_ms: i64,
    timestamp: String,
) -> (r: DnsQueryLog)
    ensures
        r.id is None,
        r.domain@ == domain@,
        r.pid == (match pid {
            Some(p) => Some(p as i64),
            None => None::<i64>,
        }),
        r.app_name == app_name,
        r.dns_server_id == server_id,
        r.resolved_ip matches Some(t) ==> resolved@.len() > 0 && t@ == resolved_text(resolved@[0]),
        r.resolved_ip is None ==> resolved@.len() == 0,
        r.latency_ms == Some(latency_ms),
        r.timestamp == timestamp,
{
    let resolved_ip = if resolved.len() > 0 {
        Some(format_resolved(&resolved[0]))
    } else {
        None
    };
    DnsQueryLog {
        id: None,
        domain: domain.to_owned(),
        pid: match pid {
            Some(p) => Some(p as i64),
            None => None,
        },
        app_name,
        dns_server_id: server_id,
        resolved_ip,
        latency_ms: Some(latency_ms),
        timestamp,
    }
}

/// The name of process `pid`, when there is one and it can be read: the
/// command name that its description as read gives.
pub fn app_name_of(pid: Option<i32>) -> (r: Option<String>)
    ensures
        pid is None ==> r is None,
        r matches Some(n) ==> (pid matches Some(p) && exists|info: ProcessInfo|
            #[trigger] read_as(info, p as i64) && info.name == n),
{
    match pid {
        Some(p) => match get_process_by_pid(p) {
            Ok(Some(info)) => Some(info.name),
            _ => None,
        },
        None => None,
    }
}

/// Where a datagram from local port `src_port` is routed: the process that
/// owns the port, if it can be found, and the server its rules give it.
/// The process is the owner of the socket on that port in the tables read
/// (UDP first), as `lookup_pid_by_socket` finds it; none when the process
/// list cannot be read. Without a process there is no server and the engine
/// is untouched.
pub fn route_datagram(engine: &mut RulesEngine, src_port: u16) -> (r: (Option<i32>, Option<DnsServer>))
    ensures
        r.0 is None ==> r.1 is None && *final(engine) == *old(engine),
        r.0 matches Some(pid) ==> pid_lookup_outcome(*old(engine), *final(engine), pid, r.1),
        exists|
            reads: Seq<(i32, Option<Vec<Option<u64>>>)>,
            udp: Option<Vec<(u16, u64)>>,
            tcp: Option<Vec<(u16, u64)>>,
        | r.0 == #[trigger] port_owner(held_sockets(reads), table_or_empty(udp), table_or_empty(tcp), src_port),
{
    let pid = match lookup_pid_by_socket(src_port) {
        Ok(o) => o,
        Err(_) => {
            proof {
                let none = Seq::<(i32, Option<Vec<Option<u64>>>)>::empty();
                assert(held_sockets(none) == Seq::<(i32, Seq<u64>)>::empty());
                assert(inode_map(held_sockets(none)) == Map::<u64, i32>::empty());
                assert(port_owner(held_sockets(none), table_or_empty(None), table_or_empty(None), src_port) is None);
            }
            None
        },
    };
    match pid {
        Some(p) => {
            let server = engine.lookup_by_pid(p);
            (pid, server)
        },
        None => (None, None),
    }
}

/// The port of the last fallback listen address.
pub const FALLBACK_PORT: u16 = 5353;

/// The addresses the proxy tries to listen on, in order: the two loopback
/// resolver addresses on port 53, then 127.0.0.1 on port 5353.
pub open spec fn fallback_addrs() -> Seq<(Seq<char>, u16)> {
    seq![("127.0.0.53"@, 53u16), ("127.0.0.54"@, 53u16), ("127.0.0.1"@, 5353u16)]
}

pub open spec fn addr_views(v: Seq<(&'static str, u16)>) -> Seq<(Seq<char>, u16)> {
    v.map_values(|a: (&'static str, u16)| (a.0@, a.1))
}

/// The addresses (IP and port) the proxy tries to listen on, in order.
pub fn proxy_fallback_addrs() -> (r: Vec<(&'static str, u16)>)
    ensures
        addr_views(r@) == fallback_addrs(),
{
    let r = vec![("127.0.0.53", 53u16), ("127.0.0.54", 53u16), ("127.0.0.1", FALLBACK_PORT)];
    assert(addr_views(r@) =~= fallback_addrs());
    r
}

/// The listen address `ip:port`.
pub fn listen_addr(ip: &str, port: u16) -> (r: String)
    ensures
        r@ == socket_addr_text(ip@, port),
{
    format_socket_addr(ip, port)
}

/// Why starting the proxy on one address failed, with the underlying error.
#[derive(Debug, Clone)]
pub enum StartFailure {
    /// The resolver configuration could not be written.
    ResolvConf(String),
    /// The server could not be created.
    Create(String),
    /// The server could not be started.
    Start(String),
}

/// The message recorded for a failed start on `ip:port`.
pub open spec fn start_failure_text(ip: Seq<char>, port: u16, f: StartFailure) -> Seq<char> {
    match f {
        StartFailure::ResolvConf(e) => "Failed to write resolv.conf for IP "@ + ip + ": "@ + e@,
        StartFailure::Create(e) => "Failed to create proxy on "@ + socket_addr_text(ip, port) + ": "@
            + e@,
        StartFailure::Start(e) => "Failed to start proxy on "@ + socket_addr_text(ip, port) + ": "@
            + e@,
    }
}

/// The message recorded for a failed start on `ip:port`; the last one
/// recorded is the error reported when no address works.
pub fn start_failure_message(ip: &str, port: u16, f: &StartFailure) -> (r: String)
    ensures
        r@ == start_failure_text(ip@, port, *f),
{
    match f {
        StartFailure::ResolvConf(e) => {
            let mut r = "Failed to write resolv.conf for IP ".to_owned();
            r.append(ip);
            r.append(": ");
            r.append(e.as_str());
            r
        },
        StartFailure::Create(e) => {
            let mut r = "Failed to create proxy on ".to_owned();
            let a = listen_addr(ip, port);
            r.append(a.as_str());
            r.append(": ");
            r.append(e.as_str());
            r
        },
        StartFailure::Start(e) => {
            let mut r = "Failed to start proxy on ".to_owned();
            let a = listen_addr(ip, port);
            r.append(a.as_str());
            r.append(": ");
            r.append(e.as_str());
            r
        },
    }
}

/// Starting the proxy: the fallback addresses are tried in order until one
/// works; each failure is recorded, and the last one is the error reported
/// when none works.
#[derive(Debug)]
pub struct ProxyStartup {
    tried: usize,
    last_error: String,
}

impl ProxyStartup {
    /// How many addresses have failed so far.
    pub closed spec fn failed(&self) -> nat {
        self.tried as nat
    }

    /// The message of the last failure, empty before any.
    pub closed spec fn last_error(&self) -> Seq<char> {
        self.last_error@
    }

    #[verifier::type_invariant]
    spec fn within_candidates(&self) -> bool {
        self.tried <= 3
    }

    /// A start that has tried nothing yet.
    pub fn new() -> (r: Self)
        ensures
            r.failed() == 0,
            r.last_error() == Seq::<char>::empty(),
    {
        ProxyStartup { tried: 0, last_error: String::new() }
    }

    /// The address to try next, none when every one has failed.
    pub fn next_candidate(&self) -> (r: Option<(&'static str, u16)>)
        ensures
            self.failed() < 3 ==> (r matches Some(a) && (a.0@, a.1) == fallback_addrs()[self.failed() as int]),
            self.failed() >= 3 ==> r is None,
    {
        proof {
            use_type_invariant(self);
        }
        let addrs = proxy_fallback_addrs();
        assert(addrs@.len() == 3) by {
            assert(addr_views(addrs@).len() == addrs@.len());
            assert(fallback_addrs().len() == 3);
        }
        if self.tried < addrs.len() {
            proof {
                assert(addr_views(addrs@)[self.tried as int] == (addrs@[self.tried as int].0@, addrs@[self.tried as int].1));
            }
            Some(addrs[self.tried])
        } else {
            None
        }
    }

    /// Records that the address tried next failed, and moves on.
    pub fn fail(&mut self, f: StartFailure)
        requires
            old(self).failed() < 3,
        ensures
            final(self).failed() == old(self).failed() + 1,
            final(self).last_error() == start_failure_text(
                fallback_addrs()[old(self).failed() as int].0,
                fallback_addrs()[old(self).failed() as int].1,
                f,
            ),
    {
        let addrs = proxy_fallback_addrs();
        assert(addrs@.len() == 3) by {
            assert(addr_views(addrs@).len() == addrs@.len());
            assert(fallback_addrs().len() == 3);
        }
        let (ip, port) = addrs[self.tried];
        proof {
            assert(addr_views(addrs@)[self.tried as int] == (addrs@[self.tried as int].0@, addrs@[self.tried as int].1));
        }
        self.last_error = start_failure_message(ip, port, &f);
        self.tried = self.tried + 1;
    }

    /// The error reported when no address works: the last failure's message.
    pub fn error(&self) -> (r: String)
        ensures
            r@ == self.last_error(),
    {
        self.last_error.clone()
    }
}

/// The proxy's status as the interface shows it.
pub fn dns_status(running: bool) -> (r: &'static str)
    ensures
        r@ == (if running {
            "running"@
        } else {
            "stopped"@
        }),
{
    if running {
        "running"
    } else {
        "stopped"
    }
}

} // verus!
