//! The rules engine: which upstream DNS server answers the queries of which
//! application or process.

use crate::process::get_process_by_pid;
use crate::state::{AppRule, DnsServer, ProcessInfo};
use crate::proxy::{proxy_addr, socket_addr_text, PROXY_LISTEN_IP, PROXY_LISTEN_PORT};
use crate::text::{contains, has_substring, str_eq};
use std::collections::HashMap;
use vstd::prelude::*;

verus! {

broadcast use vstd::std_specs::hash::group_hash_axioms;

/// A rule applies to an application named `app_name` when it is enabled and
/// its application name is `app_name` or its path occurs in `app_name`.
pub open spec fn rule_matches_app(rule: AppRule, app_name: Seq<char>) -> bool {
    rule.enabled && (rule.app_name@ == app_name || (rule.app_path matches Some(p) && has_substring(
        app_name,
        p@,
    )))
}

/// A rule applies to a process when it is enabled and its path occurs in
/// the executable's path, or its application name occurs in the process name
/// (case-sensitive substring matches).
pub open spec fn rule_matches_process(rule: AppRule, exe_path: Seq<char>, name: Seq<char>) -> bool {
    rule.enabled && match rule.app_path {
        Some(p) => has_substring(exe_path, p@) || has_substring(name, rule.app_name@),
        None => has_substring(name, rule.app_name@),
    }
}

/// The server of rule `rule`, when one with its id is known.
pub open spec fn rule_server(rule: AppRule, servers: Map<i64, DnsServer>) -> Option<DnsServer> {
    if servers.contains_key(rule.dns_server_id) {
        Some(servers[rule.dns_server_id])
    } else {
        None
    }
}

/// From rule `i` on, the server of the first rule that applies to the
/// application and whose server is known.
pub open spec fn app_route_from(
    rules: Seq<AppRule>,
    servers: Map<i64, DnsServer>,
    app_name: Seq<char>,
    i: int,
) -> Option<DnsServer>
    decreases rules.len() - i,
{
    if i < 0 || i >= rules.len() {
        None
    } else if rule_matches_app(rules[i], app_name) && rule_server(rules[i], servers) is Some {
        rule_server(rules[i], servers)
    } else {
        app_route_from(rules, servers, app_name, i + 1)
    }
}

/// From rule `i` on, the server of the first rule that applies to the
/// process and whose server is known.
pub open spec fn process_route_from(
    rules: Seq<AppRule>,
    servers: Map<i64, DnsServer>,
    exe_path: Seq<char>,
    name: Seq<char>,
    i: int,
) -> Option<DnsServer>
    decreases rules.len() - i,
{
    if i < 0 || i >= rules.len() {
        None
    } else if rule_matches_process(rules[i], exe_path, name) && rule_server(rules[i], servers) is Some {
        rule_server(rules[i], servers)
    } else {
        process_route_from(rules, servers, exe_path, name, i + 1)
    }
}

/// The server for an application named `app_name`.
pub open spec fn app_route(rules: Seq<AppRule>, servers: Map<i64, DnsServer>, app_name: Seq<char>) -> Option<
    DnsServer,
> {
    app_route_from(rules, servers, app_name, 0)
}

/// The server for a process, by its executable path and name.
pub open spec fn process_route(
    rules: Seq<AppRule>,
    servers: Map<i64, DnsServer>,
    exe_path: Seq<char>,
    name: Seq<char>,
) -> Option<DnsServer> {
    process_route_from(rules, servers, exe_path, name, 0)
}

/// From rule `i` on, the first rule whose id is `id`.
pub open spec fn rule_with_id_from(rules: Seq<AppRule>, id: i64, i: int) -> Option<AppRule>
    decreases rules.len() - i,
{
    if i < 0 || i >= rules.len() {
        None
    } else if rules[i].id == Some(id) {
        Some(rules[i])
    } else {
        rule_with_id_from(rules, id, i + 1)
    }
}

/// The server of the rule with id `id`, when that rule is enabled and its
/// server known.
pub open spec fn forced_route(rules: Seq<AppRule>, servers: Map<i64, DnsServer>, id: i64) -> Option<
    DnsServer,
> {
    match rule_with_id_from(rules, id, 0) {
        Some(rule) => if rule.enabled {
            rule_server(rule, servers)
        } else {
            None
        },
        None => None,
    }
}

/// The server for a process: the rule it is bound to (by session or by its
/// launch environment) when that one routes, else the first matching rule.
pub open spec fn select_route(
    rules: Seq<AppRule>,
    servers: Map<i64, DnsServer>,
    forced: Option<i64>,
    exe_path: Seq<char>,
    name: Seq<char>,
) -> Option<DnsServer> {
    if forced is Some && forced_route(rules, servers, forced->0) is Some {
        forced_route(rules, servers, forced->0)
    } else {
        process_route(rules, servers, exe_path, name)
    }
}

/// The first cached answer for `app_name`, if any.
pub open spec fn cached_app(
    entries: Seq<(Seq<char>, Option<DnsServer>)>,
    app_name: Seq<char>,
    i: int,
) -> Option<Option<DnsServer>>
    decreases entries.len() - i,
{
    if i < 0 || i >= entries.len() {
        None
    } else if entries[i].0 == app_name {
        Some(entries[i].1)
    } else {
        cached_app(entries, app_name, i + 1)
    }
}

/// The servers map after loading `servers` into `m`: each server with an id
/// is stored under it, later ones replacing earlier ones.
pub open spec fn servers_after(m: Map<i64, DnsServer>, servers: Seq<DnsServer>) -> Map<i64, DnsServer>
    decreases servers.len(),
{
    if servers.len() == 0 {
        m
    } else {
        let s = servers.last();
        let before = servers_after(m, servers.drop_last());
        match s.id {
            Some(id) => before.insert(id, s),
            None => before,
        }
    }
}

/// The deepest ancestor the walk up the process tree looks at.
pub open spec fn max_walk() -> int {
    10
}

/// The PID the walk up from `pid` visits at step `k`, given the processes
/// it read on the way (`chain[j]` being the process read at step `j`).
pub open spec fn visited(pid: i32, chain: Seq<ProcessInfo>, k: int) -> i32 {
    if k <= 0 {
        pid
    } else {
        match chain[k - 1].ppid {
            Some(pp) => pp as i32,
            None => 0,
        }
    }
}

/// `chain` is what the walk up from `pid` read: at each step the process
/// with the PID visited there, each with a parent.
pub open spec fn chain_follows(pid: i32, chain: Seq<ProcessInfo>) -> bool {
    forall|k: int|
        0 <= k < chain.len() ==> #[trigger] chain[k].pid == visited(pid, chain, k) as i64
            && chain[k].ppid is Some
}

/// The rule the walk up the process tree finds from step `k` (at PID
/// `cur`): stopping at PID 1 or below and after `max_walk` steps, the rule
/// of the first visited PID bound by a session, else the rule of the first
/// visited process launched under one; nothing when a process cannot be
/// read (`chain` ends) or has no parent.
pub open spec fn walk_rule(sessions: Map<u32, i64>, cur: i32, chain: Seq<ProcessInfo>, k: int) -> Option<
    i64,
>
    decreases max_walk() - k,
{
    if cur <= 1 || k < 0 || k >= max_walk() {
        None
    } else if sessions.contains_key(cur as u32) {
        Some(sessions[cur as u32])
    } else if k >= chain.len() {
        None
    } else {
        match chain[k].rule_id {
            Some(id) => Some(id),
            None => match chain[k].ppid {
                Some(pp) => walk_rule(sessions, pp as i32, chain, k + 1),
                None => None,
            },
        }
    }
}

/// The executable path of a process as matched, empty when unknown.
pub open spec fn exe_of(info: ProcessInfo) -> Seq<char> {
    match info.exe_path {
        Some(e) => e@,
        None => Seq::empty(),
    }
}

/// From position `k` of the walk on, the server of the nearest process
/// whose name or executable a rule matches (the first such rule with a
/// known server).
pub open spec fn ancestor_route(
    rules: Seq<AppRule>,
    servers: Map<i64, DnsServer>,
    chain: Seq<ProcessInfo>,
    k: int,
) -> Option<DnsServer>
    decreases chain.len() - k,
{
    if k < 0 || k >= chain.len() {
        None
    } else if process_route(rules, servers, exe_of(chain[k]), chain[k].name@) is Some {
        process_route(rules, servers, exe_of(chain[k]), chain[k].name@)
    } else {
        ancestor_route(rules, servers, chain, k + 1)
    }
}

/// The server for a process, given the rule the walk up its tree found,
/// its own description (none when it cannot be read) and the processes the
/// walk read (itself first): the rule found, else the one it was launched
/// under, when that routes; else the first rule matching the process
/// itself; else the first rule matching its nearest ancestor that a rule
/// matches.
pub open spec fn pid_answer(
    rules: Seq<AppRule>,
    servers: Map<i64, DnsServer>,
    found: Option<i64>,
    info: Option<ProcessInfo>,
    chain: Seq<ProcessInfo>,
) -> Option<DnsServer> {
    match info {
        None => None,
        Some(i) => {
            let own = select_route(
                rules,
                servers,
                if found is Some {
                    found
                } else {
                    i.rule_id
                },
                exe_of(i),
                i.name@,
            );
            if own is Some {
                own
            } else {
                ancestor_route(rules, servers, chain, 1)
            }
        },
    }
}

/// What a lookup of the server for process `pid` gives and leaves behind:
/// rules, servers, sessions and the application cache stay; a cached answer
/// is returned as it is; otherwise the answer is cached, and it is the
/// server the rules give the process for the rule that a walk up its
/// process tree finds.
pub open spec fn pid_lookup_outcome(
    before: RulesEngine,
    after: RulesEngine,
    pid: i32,
    r: Option<DnsServer>,
) -> bool {
    &&& after.rules() == before.rules()
    &&& after.servers() == before.servers()
    &&& after.sessions() == before.sessions()
    &&& after.app_cache() == before.app_cache()
    &&& before.pid_cache().contains_key(pid) ==> r == before.pid_cache()[pid]
        && after.pid_cache() == before.pid_cache()
    &&& !before.pid_cache().contains_key(pid) ==> after.pid_cache() == before.pid_cache().insert(
        pid,
        r,
    )
    &&& !before.pid_cache().contains_key(pid) ==> exists|
        chain: Seq<ProcessInfo>,
        info: Option<ProcessInfo>,
    |
        #![trigger chain_follows(pid, chain), pid_answer(before.rules(), before.servers(), walk_rule(before.sessions(), pid, chain, 0), info, chain)]
        chain_follows(pid, chain) && (info matches Some(i) ==> i.pid == pid as i64) && r
            == pid_answer(
            before.rules(),
            before.servers(),
            walk_rule(before.sessions(), pid, chain, 0),
            info,
            chain,
        )
}

/// Steps of the walk that find nothing lead on to the next PID: from step
/// `j` the walk finds what it finds from step `d`, when every step in
/// between visits a PID above 1 that has no session and a process launched
/// under no rule.
proof fn lemma_walk_skip(sessions: Map<u32, i64>, pid: i32, chain: Seq<ProcessInfo>, j: int, d: int)
    requires
        0 <= j <= d <= chain.len(),
        d <= max_walk(),
        chain_follows(pid, chain),
        forall|i: int|
            j <= i < d ==> #[trigger] visited(pid, chain, i) > 1 && !sessions.contains_key(
                visited(pid, chain, i) as u32,
            ) && chain[i].rule_id is None,
    ensures
        walk_rule(sessions, visited(pid, chain, j), chain, j) == walk_rule(
            sessions,
            visited(pid, chain, d),
            chain,
            d,
        ),
    decreases d - j,
{
    if j < d {
        assert(visited(pid, chain, j) > 1);
        assert(chain[j].pid == visited(pid, chain, j) as i64);
        assert(chain[j].ppid is Some);
        assert(visited(pid, chain, j + 1) == chain[j].ppid->0 as i32);
        lemma_walk_skip(sessions, pid, chain, j + 1, d);
    }
}

/// Ancestry: when the walk up from a process reaches, within `max_walk`
/// steps and above PID 1, a PID bound by a session, with no bound PID and
/// no process launched under a rule on the way, it finds that session's rule.
pub proof fn lemma_nearest_bound_ancestor_wins(
    sessions: Map<u32, i64>,
    pid: i32,
    chain: Seq<ProcessInfo>,
    d: int,
)
    requires
        chain_follows(pid, chain),
        0 <= d < max_walk(),
        d <= chain.len(),
        forall|i: int|
            0 <= i < d ==> #[trigger] visited(pid, chain, i) > 1 && !sessions.contains_key(
                visited(pid, chain, i) as u32,
            ) && chain[i].rule_id is None,
        visited(pid, chain, d) > 1,
        sessions.contains_key(visited(pid, chain, d) as u32),
    ensures
        walk_rule(sessions, pid, chain, 0) == Some(sessions[visited(pid, chain, d) as u32]),
{
    lemma_walk_skip(sessions, pid, chain, 0, d);
}

/// Ancestry: failing a session on the way, the first process on the walk
/// that was launched under a rule gives that rule.
pub proof fn lemma_launch_rule_is_inherited(
    sessions: Map<u32, i64>,
    pid: i32,
    chain: Seq<ProcessInfo>,
    d: int,
)
    requires
        chain_follows(pid, chain),
        0 <= d < max_walk(),
        d < chain.len(),
        forall|i: int|
            0 <= i < d ==> #[trigger] visited(pid, chain, i) > 1 && !sessions.contains_key(
                visited(pid, chain, i) as u32,
            ) && chain[i].rule_id is None,
        visited(pid, chain, d) > 1,
        !sessions.contains_key(visited(pid, chain, d) as u32),
        chain[d].rule_id is Some,
    ensures
        walk_rule(sessions, pid, chain, 0) == chain[d].rule_id,
{
    lemma_walk_skip(sessions, pid, chain, 0, d);
}

/// Ancestry is bounded: a walk that meets no session and no launch rule in
/// its first `max_walk` steps finds nothing, however deep the tree.
pub proof fn lemma_walk_stops_after_ten(sessions: Map<u32, i64>, pid: i32, chain: Seq<ProcessInfo>)
    requires
        chain_follows(pid, chain),
        chain.len() >= max_walk(),
        forall|i: int|
            0 <= i < max_walk() ==> #[trigger] visited(pid, chain, i) > 1 && !sessions.contains_key(
                visited(pid, chain, i) as u32,
            ) && chain[i].rule_id is None,
    ensures
        walk_rule(sessions, pid, chain, 0) is None,
{
    lemma_walk_skip(sessions, pid, chain, 0, max_walk());
}

/// A process bound by a session (above PID 1) gets its session's rule,
/// whatever the process tree holds.
pub proof fn lemma_own_session_wins(sessions: Map<u32, i64>, pid: i32, chain: Seq<ProcessInfo>)
    requires
        pid > 1,
        sessions.contains_key(pid as u32),
    ensures
        walk_rule(sessions, pid, chain, 0) == Some(sessions[pid as u32]),
{
}

/// Once a process's answer is cached, asking again for the same process
/// gives the same answer (until the cache is cleared or the rules reloaded).
pub proof fn lemma_pid_answer_is_remembered(
    e0: RulesEngine,
    e1: RulesEngine,
    e2: RulesEngine,
    pid: i32,
    r1: Option<DnsServer>,
    r2: Option<DnsServer>,
)
    requires
        pid_lookup_outcome(e0, e1, pid, r1),
        pid_lookup_outcome(e1, e2, pid, r2),
    ensures
        r2 == r1,
        e2.pid_cache() == e1.pid_cache(),
{
}

proof fn lemma_ancestor_route_from(
    rules: Seq<AppRule>,
    servers: Map<i64, DnsServer>,
    chain: Seq<ProcessInfo>,
    k: int,
    j: int,
)
    requires
        0 <= k <= j < chain.len(),
        process_route(rules, servers, exe_of(chain[j]), chain[j].name@) is Some,
        forall|m: int|
            k <= m < j ==> process_route(rules, servers, exe_of(#[trigger] chain[m]), chain[m].name@)
                is None,
    ensures
        ancestor_route(rules, servers, chain, k) == process_route(
            rules,
            servers,
            exe_of(chain[j]),
            chain[j].name@,
        ),
    decreases j - k,
{
    if k < j {
        assert(process_route(rules, servers, exe_of(chain[k]), chain[k].name@) is None);
        lemma_ancestor_route_from(rules, servers, chain, k + 1, j);
    }
}

/// Ancestry by name: when nothing routes the process itself (no binding
/// that routes, no rule matching it), its nearest ancestor on the walk
/// that a rule matches routes its queries, by that rule.
pub proof fn lemma_ancestor_match_routes(
    rules: Seq<AppRule>,
    servers: Map<i64, DnsServer>,
    found: Option<i64>,
    info: ProcessInfo,
    chain: Seq<ProcessInfo>,
    j: int,
)
    requires
        select_route(
            rules,
            servers,
            if found is Some {
                found
            } else {
                info.rule_id
            },
            exe_of(info),
            info.name@,
        ) is None,
        1 <= j < chain.len(),
        process_route(rules, servers, exe_of(chain[j]), chain[j].name@) is Some,
        forall|m: int|
            1 <= m < j ==> process_route(rules, servers, exe_of(#[trigger] chain[m]), chain[m].name@)
                is None,
    ensures
        pid_answer(rules, servers, found, Some(info), chain) == process_route(
            rules,
            servers,
            exe_of(chain[j]),
            chain[j].name@,
        ),
{
    lemma_ancestor_route_from(rules, servers, chain, 1, j);
}

/// What the resolver shim is told: whether to intercept, the port the
/// proxy listens on, and the address of the running proxy.
#[derive(Debug, Clone)]
pub struct ShimSettings {
    pub intercept: bool,
    pub proxy_port: u16,
    pub proxy_addr: String,
}

/// The port the proxy listens on, as the shim's settings give it.
pub const DEFAULT_PROXY_PORT: u16 = 5353;

/// The proxy address the shim is told: that of the running proxy when one
/// is known, else the default listen address `127.0.0.53:53`.
pub open spec fn shim_proxy_addr(current: Option<Seq<char>>) -> Seq<char> {
    match current {
        Some(a) => a,
        None => socket_addr_text(PROXY_LISTEN_IP@, PROXY_LISTEN_PORT),
    }
}

fn dup_route(r: &Option<DnsServer>) -> (c: Option<DnsServer>)
    ensures
        c == *r,
{
    match r {
        Some(s) => Some(s.duplicate()),
        None => None,
    }
}

/// Routes DNS queries to upstream servers by application and process.
#[derive(Debug)]
pub struct RulesEngine {
    rules: Vec<AppRule>,
    dns_servers: HashMap<i64, DnsServer>,
    pid_cache: HashMap<i32, Option<DnsServer>>,
    app_cache: Vec<(String, Option<DnsServer>)>,
    active_sessions: HashMap<u32, i64>,
    cache_ttl_secs: u64,
}

impl RulesEngine {
    /// The loaded rules, in order.
    pub closed spec fn rules(&self) -> Seq<AppRule> {
        self.rules@
    }

    /// The known servers by id.
    pub closed spec fn servers(&self) -> Map<i64, DnsServer> {
        self.dns_servers@
    }

    /// Cached answers by PID.
    pub closed spec fn pid_cache(&self) -> Map<i32, Option<DnsServer>> {
        self.pid_cache@
    }

    /// Cached answers by application name, oldest first.
    pub closed spec fn app_cache(&self) -> Seq<(Seq<char>, Option<DnsServer>)> {
        self.app_cache@.map_values(|e: (String, Option<DnsServer>)| (e.0@, e.1))
    }

    /// The rule each launched process (by PID) runs under.
    pub closed spec fn sessions(&self) -> Map<u32, i64> {
        self.active_sessions@
    }

    /// How long a cached answer may be kept, in seconds.
    pub closed spec fn cache_ttl(&self) -> u64 {
        self.cache_ttl_secs
    }

    /// Both caches are empty.
    pub open spec fn caches_empty(&self) -> bool {
        self.pid_cache() == Map::<i32, Option<DnsServer>>::empty() && self.app_cache() == Seq::<
            (Seq<char>, Option<DnsServer>),
        >::empty()
    }

    /// An engine with no rules, servers, sessions or cached answers.
    pub fn new(cache_ttl_secs: u64) -> (r: Self)
        ensures
            r.rules() == Seq::<AppRule>::empty(),
            r.servers() == Map::<i64, DnsServer>::empty(),
            r.sessions() == Map::<u32, i64>::empty(),
            r.caches_empty(),
            r.cache_ttl() == cache_ttl_secs,
    {
        let r = RulesEngine {
            rules: Vec::new(),
            dns_servers: HashMap::new(),
            pid_cache: HashMap::new(),
            app_cache: Vec::new(),
            active_sessions: HashMap::new(),
            cache_ttl_secs,
        };
        assert(r.app_cache() =~= Seq::<(Seq<char>, Option<DnsServer>)>::empty());
        r
    }

    /// Binds process `pid` to rule `rule_id`.
    pub fn track_session(&mut self, pid: u32, rule_id: i64)
        ensures
            final(self).sessions() == old(self).sessions().insert(pid, rule_id),
            final(self).rules() == old(self).rules(),
            final(self).servers() == old(self).servers(),
            final(self).pid_cache() == old(self).pid_cache(),
            final(self).app_cache() == old(self).app_cache(),
    {
        self.active_sessions.insert(pid, rule_id);
    }

    /// Forgets the binding of process `pid`.
    pub fn untrack_session(&mut self, pid: u32)
        ensures
            final(self).sessions() == old(self).sessions().remove(pid),
            final(self).rules() == old(self).rules(),
            final(self).servers() == old(self).servers(),
            final(self).pid_cache() == old(self).pid_cache(),
            final(self).app_cache() == old(self).app_cache(),
    {
        self.active_sessions.remove(&pid);
    }

    /// For each rule with a bound process, one process bound to it.
    pub fn get_active_sessions(&self) -> (r: HashMap<i64, u32>)
        ensures
            forall|rule_id: i64| #[trigger]
                r@.contains_key(rule_id) <==> exists|pid: u32| #[trigger]
                    self.sessions().contains_key(pid) && self.sessions()[pid] == rule_id,
            forall|rule_id: i64| #[trigger]
                r@.contains_key(rule_id) ==> self.sessions().contains_key(r@[rule_id])
                    && self.sessions()[r@[rule_id]] == rule_id,
    {
        broadcast use vstd::std_specs::hash::axiom_spec_hash_map_iter;

        let mut map: HashMap<i64, u32> = HashMap::new();
        for (pid, rule_id) in it: self.active_sessions.iter()
            invariant
                it.seq() == vstd::std_specs::iter::IteratorSpec::remaining(
                    &vstd::std_specs::hash::spec_hash_map_iter(&self.active_sessions),
                ),
                forall|k: i64| #[trigger]
                    map@.contains_key(k) <==> exists|j: int|
                        0 <= j < it.index() && *(#[trigger] it.seq()[j]).1 == k,
                forall|k: i64| #[trigger]
                    map@.contains_key(k) ==> self.sessions().contains_key(map@[k])
                        && self.sessions()[map@[k]] == k,
        {
            map.insert(*rule_id, *pid);
        }
        map
    }

    /// Replaces the rules and drops every cached answer; returns what the
    /// resolver shim must be told.
    pub fn load_rules(&mut self, rules: Vec<AppRule>, current_proxy_addr: Option<&str>) -> (r:
        ShimSettings)
        ensures
            final(self).rules() == rules@,
            final(self).caches_empty(),
            final(self).servers() == old(self).servers(),
            final(self).sessions() == old(self).sessions(),
            r.intercept == exists|i: int|
                0 <= i < rules@.len() && #[trigger] rules@[i].enabled && rules@[i].use_ld_preload,
            r.proxy_port == DEFAULT_PROXY_PORT,
            r.proxy_addr@ == shim_proxy_addr(
                match current_proxy_addr {
                    Some(a) => Some(a@),
                    None => None,
                },
            ),
    {
        self.rules = rules;
        self.pid_cache.clear();
        self.app_cache = Vec::new();
        assert(self.app_cache() =~= Seq::<(Seq<char>, Option<DnsServer>)>::empty());
        let mut intercept = false;
        let mut i: usize = 0;
        while i < self.rules.len()
            invariant
                i <= self.rules@.len(),
                self.rules@ == rules@,
                intercept == exists|j: int|
                    0 <= j < i && #[trigger] rules@[j].enabled && rules@[j].use_ld_preload,
            decreases self.rules@.len() - i,
        {
            if self.rules[i].enabled && self.rules[i].use_ld_preload {
                intercept = true;
            }
            i = i + 1;
        }
        let proxy_addr = match current_proxy_addr {
            Some(a) => a.to_owned(),
            None => proxy_addr(),
        };
        ShimSettings { intercept, proxy_port: DEFAULT_PROXY_PORT, proxy_addr }
    }

    /// Stores each server that has an id under that id; cached answers are kept.
    pub fn load_dns_servers(&mut self, servers: Vec<DnsServer>)
        ensures
            final(self).servers() == servers_after(old(self).servers(), servers@),
            final(self).rules() == old(self).rules(),
            final(self).sessions() == old(self).sessions(),
            final(self).pid_cache() == old(self).pid_cache(),
            final(self).app_cache() == old(self).app_cache(),
    {
        let mut i: usize = 0;
        while i < servers.len()
            invariant
                i <= servers@.len(),
                self.dns_servers@ == servers_after(old(self).servers(), servers@.take(i as int)),
                self.rules() == old(self).rules(),
                self.sessions() == old(self).sessions(),
                self.pid_cache() == old(self).pid_cache(),
                self.app_cache() == old(self).app_cache(),
            decreases servers@.len() - i,
        {
            assert(servers@.take(i + 1).drop_last() =~= servers@.take(i as int));
            match servers[i].id {
                Some(id) => {
                    self.dns_servers.insert(id, servers[i].duplicate());
                },
                None => {},
            }
            i = i + 1;
        }
        assert(servers@.take(servers@.len() as int) =~= servers@);
    }

    /// The server for an application named `app_name` under the loaded rules.
    pub fn route_app(&self, app_name: &str) -> (r: Option<DnsServer>)
        ensures
            r == app_route(self.rules(), self.servers(), app_name@),
    {
        let mut i: usize = 0;
        while i < self.rules.len()
            invariant
                i <= self.rules@.len(),
                app_route(self.rules(), self.servers(), app_name@) == app_route_from(
                    self.rules(),
                    self.servers(),
                    app_name@,
                    i as int,
                ),
            decreases self.rules@.len() - i,
        {
            let rule = &self.rules[i];
            if rule.enabled {
                let by_path = match &rule.app_path {
                    Some(p) => contains(app_name, p.as_str()),
                    None => false,
                };
                if str_eq(rule.app_name.as_str(), app_name) || by_path {
                    match self.dns_servers.get(&rule.dns_server_id) {
                        Some(s) => {
                            return Some(s.duplicate());
                        },
                        None => {},
                    }
                }
            }
            i = i + 1;
        }
        None
    }

    /// The server for a process with executable path `exe_path` and name
    /// `name`, among the rules that match it.
    pub fn route_process(&self, exe_path: &str, name: &str) -> (r: Option<DnsServer>)
        ensures
            r == process_route(self.rules(), self.servers(), exe_path@, name@),
    {
        let mut i: usize = 0;
        while i < self.rules.len()
            invariant
                i <= self.rules@.len(),
                process_route(self.rules(), self.servers(), exe_path@, name@) == process_route_from(
                    self.rules(),
                    self.servers(),
                    exe_path@,
                    name@,
                    i as int,
                ),
            decreases self.rules@.len() - i,
        {
            let rule = &self.rules[i];
            if rule.enabled {
                let m = match &rule.app_path {
                    Some(p) => contains(exe_path, p.as_str()) || contains(
                        name,
                        rule.app_name.as_str(),
                    ),
                    None => contains(name, rule.app_name.as_str()),
                };
                if m {
                    match self.dns_servers.get(&rule.dns_server_id) {
                        Some(s) => {
                            return Some(s.duplicate());
                        },
                        None => {},
                    }
                }
            }
            i = i + 1;
        }
        None
    }

    /// The server of the rule with id `id`, when it is enabled and its
    /// server is known.
    pub fn route_forced(&self, id: i64) -> (r: Option<DnsServer>)
        ensures
            r == forced_route(self.rules(), self.servers(), id),
    {
        let mut i: usize = 0;
        while i < self.rules.len()
            invariant
                i <= self.rules@.len(),
                rule_with_id_from(self.rules(), id, 0) == rule_with_id_from(
                    self.rules(),
                    id,
                    i as int,
                ),
            decreases self.rules@.len() - i,
        {
            let rule = &self.rules[i];
            let same = match rule.id {
                Some(rid) => rid == id,
                None => false,
            };
            if same {
                if rule.enabled {
                    return match self.dns_servers.get(&rule.dns_server_id) {
                        Some(s) => Some(s.duplicate()),
                        None => None,
                    };
                }
                return None;
            }
            i = i + 1;
        }
        None
    }

    /// The server for a process given the rule it is bound to, if any, its
    /// executable path and its name.
    pub fn select_server(&self, forced_rule_id: Option<i64>, exe_path: &str, name: &str) -> (r:
        Option<DnsServer>)
        ensures
            r == select_route(self.rules(), self.servers(), forced_rule_id, exe_path@, name@),
    {
        match forced_rule_id {
            Some(id) => match self.route_forced(id) {
                Some(s) => {
                    return Some(s);
                },
                None => {},
            },
            None => {},
        }
        self.route_process(exe_path, name)
    }

    /// The rule process `pid` is bound to.
    pub fn session_of(&self, pid: u32) -> (r: Option<i64>)
        ensures
            r == (if self.sessions().contains_key(pid) {
                Some(self.sessions()[pid])
            } else {
                None
            }),
    {
        match self.active_sessions.get(&pid) {
            Some(rule_id) => Some(*rule_id),
            None => None,
        }
    }

    /// The server for the queries of process `pid`: a cached answer when
    /// there is one; otherwise the rule bound to the process or its nearest
    /// bound ancestor (at most ten generations up), else the first rule that
    /// matches it by name or path, else the first rule that matches its
    /// nearest matching ancestor. No process information gives no server.
    /// The answer is cached.
    pub fn lookup_by_pid(&mut self, pid: i32) -> (r: Option<DnsServer>)
        ensures
            pid_lookup_outcome(*old(self), *final(self), pid, r),
    {
        match self.pid_cache.get(&pid) {
            Some(c) => {
                return dup_route(c);
            },
            None => {},
        }
        let mut current_pid = pid;
        let mut forced: Option<i64> = None;
        let mut depth: u32 = 0;
        let ghost sessions = old(self).sessions();
        let ghost mut chain: Seq<ProcessInfo> = Seq::empty();
        let mut chain_v: Vec<ProcessInfo> = Vec::new();
        while current_pid > 1 && depth < 10
            invariant_except_break
                forced is None,
                chain.len() == depth,
                current_pid == visited(pid, chain, depth as int),
                forall|i: int|
                    0 <= i < depth ==> #[trigger] visited(pid, chain, i) > 1 && !sessions.contains_key(
                        visited(pid, chain, i) as u32,
                    ) && chain[i].rule_id is None,
                !(current_pid > 1 && depth < 10) ==> walk_rule(sessions, pid, chain, 0) is None,
            invariant
                depth <= 10,
                self.sessions() == sessions,
                chain_follows(pid, chain),
                chain_v@ == chain,
            ensures
                chain_follows(pid, chain),
                forced == walk_rule(sessions, pid, chain, 0),
            decreases 10 - depth,
        {
            match self.session_of(current_pid as u32) {
                Some(rule_id) => {
                    forced = Some(rule_id);
                    proof {
                        lemma_walk_skip(sessions, pid, chain, 0, depth as int);
                    }
                    break;
                },
                None => {},
            }
            match get_process_by_pid(current_pid) {
                Ok(Some(info)) => {
                    proof {
                        let c2 = chain.push(info);
                        assert forall|k: int| 0 <= k < c2.len() implies #[trigger] c2[k].pid == visited(
                            pid,
                            c2,
                            k,
                        ) as i64 && c2[k].ppid is Some by {
                            if k < chain.len() {
                                assert(c2[k] == chain[k]);
                            }
                        }
                        assert forall|i: int| 0 <= i < depth implies #[trigger] visited(pid, c2, i)
                            == visited(pid, chain, i) && c2[i] == chain[i] by {}
                        chain = c2;
                    }
                    let rid = info.rule_id;
                    let parent = info.ppid;
                    chain_v.push(info);
                    match rid {
                        Some(env_rule_id) => {
                            forced = Some(env_rule_id);
                            proof {
                                lemma_walk_skip(sessions, pid, chain, 0, depth as int);
                            }
                            break;
                        },
                        None => {},
                    }
                    match parent {
                        Some(ppid) => {
                            current_pid = #[verifier::truncate] (ppid as i32);
                        },
                        None => {
                            proof {
                                lemma_walk_skip(sessions, pid, chain, 0, depth as int);
                            }
                            break;
                        },
                    }
                },
                _ => {
                    proof {
                        lemma_walk_skip(sessions, pid, chain, 0, depth as int);
                    }
                    break;
                },
            }
            depth = depth + 1;
            proof {
                if !(current_pid > 1 && depth < 10) {
                    lemma_walk_skip(sessions, pid, chain, 0, depth as int);
                }
            }
        }
        let info = match get_process_by_pid(pid) {
            Ok(Some(info)) => Some(info),
            _ => None,
        };
        let ghost info_g = info;
        let r = self.route_for_chain(pid, &chain_v, info);
        proof {
            assert(chain_follows(pid, chain));
            assert(r == pid_answer(
                old(self).rules(),
                old(self).servers(),
                walk_rule(old(self).sessions(), pid, chain, 0),
                info_g,
                chain,
            ));
        }
        self.pid_cache.insert(pid, dup_route(&r));
        r
    }

    /// The rule a walk up the process tree from `pid` finds, given the
    /// processes the walk read.
    pub fn walk_found(&self, pid: i32, chain: &Vec<ProcessInfo>) -> (r: Option<i64>)
        ensures
            r == walk_rule(self.sessions(), pid, chain@, 0),
    {
        let mut cur = pid;
        let mut k: usize = 0;
        while k < 10
            invariant
                k <= 10,
                walk_rule(self.sessions(), pid, chain@, 0) == walk_rule(
                    self.sessions(),
                    cur,
                    chain@,
                    k as int,
                ),
            decreases 10 - k,
        {
            if cur <= 1 {
                return None;
            }
            match self.session_of(cur as u32) {
                Some(id) => {
                    return Some(id);
                },
                None => {},
            }
            if k >= chain.len() {
                return None;
            }
            match chain[k].rule_id {
                Some(id) => {
                    return Some(id);
                },
                None => {},
            }
            match chain[k].ppid {
                Some(pp) => {
                    cur = #[verifier::truncate] (pp as i32);
                },
                None => {
                    return None;
                },
            }
            k = k + 1;
        }
        None
    }

    /// The server for process `pid`, given the processes a walk up its tree
    /// read (itself first) and its own description (none when it cannot
    /// be read).
    pub fn route_for_chain(&self, pid: i32, chain: &Vec<ProcessInfo>, info: Option<ProcessInfo>) -> (r:
        Option<DnsServer>)
        ensures
            r == pid_answer(
                self.rules(),
                self.servers(),
                walk_rule(self.sessions(), pid, chain@, 0),
                info,
                chain@,
            ),
    {
        let found = self.walk_found(pid, chain);
        let i = match info {
            Some(i) => i,
            None => {
                return None;
            },
        };
        let exe_path = match &i.exe_path {
            Some(e) => e.clone(),
            None => String::new(),
        };
        let chosen = match found {
            Some(id) => Some(id),
            None => i.rule_id,
        };
        let own = self.select_server(chosen, exe_path.as_str(), i.name.as_str());
        proof {
            assert(exe_path@ == exe_of(i));
        }
        if own.is_some() {
            return own;
        }
        assert(pid_answer(
            self.rules(),
            self.servers(),
            walk_rule(self.sessions(), pid, chain@, 0),
            info,
            chain@,
        ) == ancestor_route(self.rules(), self.servers(), chain@, 1));
        let mut j: usize = 1;
        while j < chain.len()
            invariant
                1 <= j,
                pid_answer(
                    self.rules(),
                    self.servers(),
                    walk_rule(self.sessions(), pid, chain@, 0),
                    info,
                    chain@,
                ) == ancestor_route(self.rules(), self.servers(), chain@, 1),
                ancestor_route(self.rules(), self.servers(), chain@, 1) == ancestor_route(
                    self.rules(),
                    self.servers(),
                    chain@,
                    j as int,
                ),
            decreases chain@.len() - j,
        {
            let a = &chain[j];
            let a_exe = match &a.exe_path {
                Some(e) => e.clone(),
                None => String::new(),
            };
            proof {
                assert(a_exe@ == exe_of(chain@[j as int]));
            }
            let m = self.route_process(a_exe.as_str(), a.name.as_str());
            if m.is_some() {
                return m;
            }
            j = j + 1;
        }
        None
    }

    /// The server for an application named `app_name`: a cached answer when
    /// there is one, else the first matching rule's server, which is cached.
    pub fn lookup_by_app_name(&mut self, app_name: &str) -> (r: Option<DnsServer>)
        ensures
            final(self).rules() == old(self).rules(),
            final(self).servers() == old(self).servers(),
            final(self).sessions() == old(self).sessions(),
            final(self).pid_cache() == old(self).pid_cache(),
            cached_app(old(self).app_cache(), app_name@, 0) matches Some(c) ==> r == c && final(self).app_cache() == old(self).app_cache(),
            cached_app(old(self).app_cache(), app_name@, 0) is None ==> r == app_route(
                old(self).rules(),
                old(self).servers(),
                app_name@,
            ) && final(self).app_cache() == old(self).app_cache().push((app_name@, r)),
    {
        let mut i: usize = 0;
        while i < self.app_cache.len()
            invariant
                i <= self.app_cache@.len(),
                self.app_cache() == old(self).app_cache(),
                cached_app(self.app_cache(), app_name@, 0) == cached_app(
                    self.app_cache(),
                    app_name@,
                    i as int,
                ),
            decreases self.app_cache@.len() - i,
        {
            if str_eq(self.app_cache[i].0.as_str(), app_name) {
                return dup_route(&self.app_cache[i].1);
            }
            i = i + 1;
        }
        let r = self.route_app(app_name);
        let ghost before = self.app_cache@;
        self.app_cache.push((app_name.to_owned(), dup_route(&r)));
        assert(self.app_cache() =~= old(self).app_cache().push((app_name@, r)));
        r
    }

    /// Drops every cached answer.
    pub fn clear_cache(&mut self)
        ensures
            final(self).caches_empty(),
            final(self).rules() == old(self).rules(),
            final(self).servers() == old(self).servers(),
            final(self).sessions() == old(self).sessions(),
    {
        self.pid_cache.clear();
        self.app_cache = Vec::new();
        assert(self.app_cache() =~= Seq::<(Seq<char>, Option<DnsServer>)>::empty());
    }
}

proof fn lemma_disabled_from(rules: Seq<AppRule>, servers: Map<i64, DnsServer>, exe: Seq<char>, name: Seq<char>, i: int)
    requires
        forall|k: int| 0 <= k < rules.len() ==> !(#[trigger] rules[k]).enabled,
    ensures
        app_route_from(rules, servers, name, i) is None,
        process_route_from(rules, servers, exe, name, i) is None,
    decreases rules.len() - i,
{
    if 0 <= i < rules.len() {
        lemma_disabled_from(rules, servers, exe, name, i + 1);
    }
}

proof fn lemma_rule_with_id_found(rules: Seq<AppRule>, id: i64, i: int)
    ensures
        rule_with_id_from(rules, id, i) matches Some(r) ==> exists|k: int|
            0 <= k < rules.len() && #[trigger] rules[k] == r,
    decreases rules.len() - i,
{
    if 0 <= i < rules.len() && rules[i].id != Some(id) {
        lemma_rule_with_id_found(rules, id, i + 1);
    }
}

/// With every rule disabled, nothing is routed: neither an application,
/// nor a process, whatever rule it is bound to.
pub proof fn lemma_disabled_rules_never_route(
    rules: Seq<AppRule>,
    servers: Map<i64, DnsServer>,
    forced: Option<i64>,
    exe: Seq<char>,
    name: Seq<char>,
)
    requires
        forall|k: int| 0 <= k < rules.len() ==> !(#[trigger] rules[k]).enabled,
    ensures
        app_route(rules, servers, name) is None,
        select_route(rules, servers, forced, exe, name) is None,
{
    lemma_disabled_from(rules, servers, exe, name, 0);
    if forced is Some {
        lemma_rule_with_id_found(rules, forced->0, 0);
    }
}

proof fn lemma_first_match_from(
    rules: Seq<AppRule>,
    servers: Map<i64, DnsServer>,
    exe: Seq<char>,
    name: Seq<char>,
    i: int,
    j: int,
)
    requires
        0 <= j <= i < rules.len(),
        rule_matches_process(rules[i], exe, name),
        servers.contains_key(rules[i].dns_server_id),
        forall|k: int|
            0 <= k < i ==> !(rule_matches_process(#[trigger] rules[k], exe, name) && servers.contains_key(
                rules[k].dns_server_id,
            )),
    ensures
        process_route_from(rules, servers, exe, name, j) == Some(servers[rules[i].dns_server_id]),
    decreases i - j,
{
    if j < i {
        lemma_first_match_from(rules, servers, exe, name, i, j + 1);
    }
}

/// Rules are tried in order: a process goes to the server of the first rule
/// that matches it (by path or by a case-sensitive substring of its name)
/// and whose server is known.
pub proof fn lemma_first_matching_rule_wins(
    rules: Seq<AppRule>,
    servers: Map<i64, DnsServer>,
    exe: Seq<char>,
    name: Seq<char>,
    i: int,
)
    requires
        0 <= i < rules.len(),
        rule_matches_process(rules[i], exe, name),
        servers.contains_key(rules[i].dns_server_id),
        forall|k: int|
            0 <= k < i ==> !(rule_matches_process(#[trigger] rules[k], exe, name) && servers.contains_key(
                rules[k].dns_server_id,
            )),
    ensures
        process_route(rules, servers, exe, name) == Some(servers[rules[i].dns_server_id]),
        select_route(rules, servers, None, exe, name) == Some(servers[rules[i].dns_server_id]),
{
    lemma_first_match_from(rules, servers, exe, name, i, 0);
}

/// A text contains every text it is built around.
proof fn lemma_contains_middle(pre: Seq<char>, mid: Seq<char>, post: Seq<char>)
    ensures
        has_substring(pre + mid + post, mid),
{
    let h = pre + mid + post;
    assert(h.subrange(pre.len() as int, (pre.len() + mid.len()) as int) =~= mid);
}

/// Name matching is by containment: an enabled rule, with no enabled rule
/// before it and a known server, routes every process whose name contains
/// the rule's application name (case-sensitive), whatever surrounds it and
/// whatever its executable.
pub proof fn lemma_rule_name_inside_process_name_routes(
    rules: Seq<AppRule>,
    servers: Map<i64, DnsServer>,
    i: int,
    exe: Seq<char>,
    pre: Seq<char>,
    post: Seq<char>,
)
    requires
        0 <= i < rules.len(),
        rules[i].enabled,
        servers.contains_key(rules[i].dns_server_id),
        forall|k: int| 0 <= k < i ==> !(#[trigger] rules[k]).enabled,
    ensures
        process_route(rules, servers, exe, pre + rules[i].app_name@ + post) == Some(
            servers[rules[i].dns_server_id],
        ),
{
    lemma_contains_middle(pre, rules[i].app_name@, post);
    lemma_first_matching_rule_wins(rules, servers, exe, pre + rules[i].app_name@ + post, i);
}

/// Path matching is by containment too: an enabled rule with a path, with
/// no enabled rule before it and a known server, routes every process whose
/// executable path contains that path, whatever its name.
pub proof fn lemma_rule_path_inside_exe_path_routes(
    rules: Seq<AppRule>,
    servers: Map<i64, DnsServer>,
    i: int,
    path: String,
    name: Seq<char>,
    pre: Seq<char>,
    post: Seq<char>,
)
    requires
        0 <= i < rules.len(),
        rules[i].enabled,
        rules[i].app_path == Some(path),
        servers.contains_key(rules[i].dns_server_id),
        forall|k: int| 0 <= k < i ==> !(#[trigger] rules[k]).enabled,
    ensures
        process_route(rules, servers, pre + path@ + post, name) == Some(servers[rules[i].dns_server_id]),
{
    lemma_contains_middle(pre, path@, post);
    lemma_first_matching_rule_wins(rules, servers, pre + path@ + post, name, i);
}

/// A process that a rule matches is routed by its own match: when no
/// binding routes it (neither the rule the walk found nor the one it was
/// launched under), the first rule matching the process itself decides,
/// whatever its ancestors match.
pub proof fn lemma_own_match_beats_ancestors(
    rules: Seq<AppRule>,
    servers: Map<i64, DnsServer>,
    found: Option<i64>,
    info: ProcessInfo,
    chain: Seq<ProcessInfo>,
)
    requires
        ({
            let forced = if found is Some {
                found
            } else {
                info.rule_id
            };
            forced is None || forced_route(rules, servers, forced->0) is None
        }),
        process_route(rules, servers, exe_of(info), info.name@) is Some,
    ensures
        pid_answer(rules, servers, found, Some(info), chain) == process_route(
            rules,
            servers,
            exe_of(info),
            info.name@,
        ),
{
}

/// The example of the rule above in plain terms: with no binding, a
/// process whose name contains the application name of the first enabled
/// rule (whose server is known) goes to that rule's server, even when its
/// parent or any other ancestor matches another rule.
pub proof fn lemma_own_name_beats_ancestors(
    rules: Seq<AppRule>,
    servers: Map<i64, DnsServer>,
    i: int,
    info: ProcessInfo,
    chain: Seq<ProcessInfo>,
    pre: Seq<char>,
    post: Seq<char>,
)
    requires
        0 <= i < rules.len(),
        rules[i].enabled,
        servers.contains_key(rules[i].dns_server_id),
        forall|k: int| 0 <= k < i ==> !(#[trigger] rules[k]).enabled,
        info.rule_id is None,
        info.name@ == pre + rules[i].app_name@ + post,
    ensures
        pid_answer(rules, servers, None, Some(info), chain) == Some(servers[rules[i].dns_server_id]),
{
    lemma_rule_name_inside_process_name_routes(rules, servers, i, exe_of(info), pre, post);
    lemma_own_match_beats_ancestors(rules, servers, None, info, chain);
}

/// A binding to a rule (by session or launch environment) takes precedence
/// over name matching whenever that rule is enabled and its server known.
pub proof fn lemma_binding_takes_precedence(
    rules: Seq<AppRule>,
    servers: Map<i64, DnsServer>,
    id: i64,
    exe: Seq<char>,
    name: Seq<char>,
)
    requires
        forced_route(rules, servers, id) is Some,
    ensures
        select_route(rules, servers, Some(id), exe, name) == forced_route(rules, servers, id),
{
}

proof fn lemma_cached_app_push(
    entries: Seq<(Seq<char>, Option<DnsServer>)>,
    app_name: Seq<char>,
    r: Option<DnsServer>,
    i: int,
)
    requires
        0 <= i <= entries.len(),
        cached_app(entries, app_name, i) is None,
    ensures
        cached_app(entries.push((app_name, r)), app_name, i) == Some(r),
    decreases entries.len() - i,
{
    if i < entries.len() {
        lemma_cached_app_push(entries, app_name, r, i + 1);
    }
}

/// Once an application's answer is cached, asking again gives that same
/// answer (until the cache is cleared or the rules are reloaded).
pub proof fn lemma_app_answer_is_remembered(
    entries: Seq<(Seq<char>, Option<DnsServer>)>,
    app_name: Seq<char>,
    r: Option<DnsServer>,
)
    requires
        cached_app(entries, app_name, 0) is None,
    ensures
        cached_app(entries.push((app_name, r)), app_name, 0) == Some(r),
{
    lemma_cached_app_push(entries, app_name, r, 0);
}

/// Untracking a process undoes tracking it: the sessions are as before.
pub proof fn lemma_untrack_undoes_track(sessions: Map<u32, i64>, pid: u32, rule_id: i64)
    requires
        !sessions.contains_key(pid),
    ensures
        sessions.insert(pid, rule_id).remove(pid) == sessions,
{
    assert(sessions.insert(pid, rule_id).remove(pid) =~= sessions);
}

impl Default for RulesEngine {
    fn default() -> (r: Self)
        ensures
            r.rules() == Seq::<AppRule>::empty(),
            r.servers() == Map::<i64, DnsServer>::empty(),
            r.sessions() == Map::<u32, i64>::empty(),
            r.caches_empty(),
            r.cache_ttl() == 60,
    {
        RulesEngine::new(60)
    }
}

} // verus!
