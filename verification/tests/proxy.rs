use dnsflow::proxy::{
    answer_bytes, dns_status, format_ipv4, format_resolved, format_socket_addr, ipv4_answers,
    listen_addr, proxy_addr, proxy_fallback_addrs, ProxyStartup, proxy_resolv_conf, query_log_entry,
    read_question, route_datagram, start_failure_message, upstream_address, ResolvedIp,
    StartFailure, ANSWER_TTL, FALLBACK_UPSTREAM, PROXY_LISTEN_IP, PROXY_LISTEN_PORT,
    PROXY_RESOLV_CONF,
};
use dnsflow::rules::RulesEngine;
use dnsflow::state::DnsServer;
use dnsflow::wire::{build_dns_query, parse_dns_response};

#[test]
fn proxy_listens_on_its_documented_address() {
    assert_eq!(PROXY_LISTEN_IP, "127.0.0.53");
    assert_eq!(PROXY_LISTEN_PORT, 53);
    assert_eq!(proxy_addr(), "127.0.0.53:53");
    assert_eq!(PROXY_RESOLV_CONF, "/tmp/dnsflow_resolv.conf");
    assert_eq!(format_socket_addr("10.0.0.1", 5353), "10.0.0.1:5353");
}

#[test]
fn fallback_addresses_in_order() {
    assert_eq!(
        proxy_fallback_addrs(),
        vec![("127.0.0.53", 53), ("127.0.0.54", 53), ("127.0.0.1", 5353)]
    );
    assert_eq!(listen_addr("127.0.0.1", 5353), "127.0.0.1:5353");
}

#[test]
fn resolv_conf_names_the_proxy() {
    assert_eq!(proxy_resolv_conf("127.0.0.53"), "nameserver 127.0.0.53\n");
}

#[test]
fn upstream_is_server_address_on_port_53() {
    let s = DnsServer {
        id: Some(1),
        name: "Quad9".to_string(),
        address: "9.9.9.9".to_string(),
        secondary_address: None,
        protocol: "udp".to_string(),
        is_default: false,
    };
    assert_eq!(upstream_address(&s), "9.9.9.9:53");
    assert_eq!(FALLBACK_UPSTREAM, "8.8.8.8:53");
}

#[test]
fn start_failures_are_reported_per_stage() {
    assert_eq!(
        start_failure_message("127.0.0.53", 53, &StartFailure::ResolvConf("denied".to_string())),
        "Failed to write resolv.conf for IP 127.0.0.53: denied"
    );
    assert_eq!(
        start_failure_message("127.0.0.54", 53, &StartFailure::Create("busy".to_string())),
        "Failed to create proxy on 127.0.0.54:53: busy"
    );
    assert_eq!(
        start_failure_message("127.0.0.1", 5353, &StartFailure::Start("bind".to_string())),
        "Failed to start proxy on 127.0.0.1:5353: bind"
    );
}

#[test]
fn status_words() {
    assert_eq!(dns_status(true), "running");
    assert_eq!(dns_status(false), "stopped");
}

#[test]
fn ipv4_addresses_print_in_dotted_decimal() {
    assert_eq!(format_ipv4([8, 8, 4, 4]), "8.8.4.4");
    assert_eq!(format_ipv4([255, 0, 10, 100]), "255.0.10.100");
    assert_eq!(format_resolved(&ResolvedIp::Other("::1".to_string())), "::1");
}

#[test]
fn only_ipv4_addresses_are_answered() {
    let ips = vec![
        ResolvedIp::Other("2001:db8::1".to_string()),
        ResolvedIp::V4([1, 2, 3, 4]),
        ResolvedIp::Other("::1".to_string()),
        ResolvedIp::V4([5, 6, 7, 8]),
    ];
    assert_eq!(ipv4_answers(&ips), vec![[1, 2, 3, 4], [5, 6, 7, 8]]);
    assert!(ipv4_answers(&vec![]).is_empty());
}

#[test]
fn query_is_read_back_and_answered() {
    let query = build_dns_query(0x1234, "example.com");
    let (id, q) = read_question(&query).unwrap();
    assert_eq!(id, 0x1234);
    assert_eq!(q.labels, vec![b"example".to_vec(), b"com".to_vec()]);
    assert_eq!(q.name, "example.com.");
    assert_eq!(q.qtype, 1);
    assert_eq!(q.qclass, 1);
    let resolved = vec![
        ResolvedIp::V4([93, 184, 216, 34]),
        ResolvedIp::Other("2606:2800::1".to_string()),
        ResolvedIp::V4([10, 0, 0, 1]),
    ];
    let bytes = answer_bytes(id, &q, &resolved).unwrap();
    assert_eq!(bytes[0], 0x12);
    assert_eq!(bytes[1], 0x34);
    assert!(bytes[2] & 0x80 != 0);
    assert_eq!(u16::from_be_bytes([bytes[6], bytes[7]]), 2);
    assert_eq!(parse_dns_response(&bytes), vec![[93, 184, 216, 34], [10, 0, 0, 1]]);
    assert_eq!(ANSWER_TTL, 300);
    let ttl_at = bytes.len() - 10;
    assert_eq!(
        u32::from_be_bytes([bytes[ttl_at], bytes[ttl_at + 1], bytes[ttl_at + 2], bytes[ttl_at + 3]]),
        300
    );
}

#[test]
fn garbage_is_not_a_query() {
    assert!(read_question(&[1, 2, 3]).is_none());
    let mut no_question = build_dns_query(7, "a.b");
    no_question[5] = 0;
    no_question.truncate(12);
    assert!(read_question(&no_question).is_none());
}

#[test]
fn log_entry_records_the_answer() {
    let resolved = vec![
        ResolvedIp::Other("::1".to_string()),
        ResolvedIp::V4([1, 1, 1, 1]),
    ];
    let e = query_log_entry(
        "example.com.",
        Some(42),
        Some("curl".to_string()),
        Some(3),
        &resolved,
        17,
        "2024-01-02 03:04:05".to_string(),
    );
    assert_eq!(e.id, None);
    assert_eq!(e.domain, "example.com.");
    assert_eq!(e.pid, Some(42));
    assert_eq!(e.app_name, Some("curl".to_string()));
    assert_eq!(e.dns_server_id, Some(3));
    assert_eq!(e.resolved_ip, Some("::1".to_string()));
    assert_eq!(e.latency_ms, Some(17));
    assert_eq!(e.timestamp, "2024-01-02 03:04:05");
    let e = query_log_entry("x.", None, None, None, &vec![], 0, String::new());
    assert_eq!(e.pid, None);
    assert_eq!(e.resolved_ip, None);
}

#[test]
fn datagram_from_own_socket_is_attributed() {
    let rt = tokio::runtime::Runtime::new().unwrap();
    let sock = rt.block_on(tokio::net::UdpSocket::bind("127.0.0.1:0")).unwrap();
    let port = sock.local_addr().unwrap().port();
    let mut engine = RulesEngine::new(60);
    let (pid, server) = route_datagram(&mut engine, port);
    assert_eq!(pid, Some(procfs::process::Process::myself().unwrap().pid));
    assert!(server.is_none());
}

#[test]
fn startup_tries_each_fallback_then_reports_the_last_failure() {
    let mut s = ProxyStartup::new();
    assert_eq!(s.next_candidate(), Some(("127.0.0.53", 53)));
    s.fail(StartFailure::Start("in use".to_string()));
    assert_eq!(s.next_candidate(), Some(("127.0.0.54", 53)));
    s.fail(StartFailure::ResolvConf("denied".to_string()));
    assert_eq!(s.next_candidate(), Some(("127.0.0.1", 5353)));
    s.fail(StartFailure::Create("busy".to_string()));
    assert_eq!(s.next_candidate(), None);
    assert_eq!(s.error(), "Failed to create proxy on 127.0.0.1:5353: busy");
}

#[test]
fn answer_echoes_the_question_and_flags_a_response() {
    let query = build_dns_query(0x0BCD, "www.example.org");
    let (id, q) = read_question(&query).unwrap();
    let bytes = answer_bytes(id, &q, &vec![ResolvedIp::V4([192, 0, 2, 7])]).unwrap();
    assert_eq!(u16::from_be_bytes([bytes[0], bytes[1]]), 0x0BCD);
    assert!(bytes[2] & 0x80 != 0);
    assert_eq!(u16::from_be_bytes([bytes[4], bytes[5]]), 1);
    assert_eq!(u16::from_be_bytes([bytes[6], bytes[7]]), 1);
    let question = &query[12..];
    assert_eq!(&bytes[12..12 + question.len()], question);
    assert_eq!(parse_dns_response(&bytes), vec![[192, 0, 2, 7]]);
    let none = answer_bytes(id, &q, &vec![ResolvedIp::Other("::1".to_string())]).unwrap();
    assert_eq!(u16::from_be_bytes([none[6], none[7]]), 0);
}
