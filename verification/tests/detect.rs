use dnsflow::detect::{
    is_whitespace, nameservers_from_resolv_conf, nameservers_from_resolvectl,
    system_dns_servers,
};

#[test]
fn resolv_conf_nameservers_in_order() {
    let conf = "# generated\nnameserver 127.0.0.53\n  nameserver\t1.1.1.1  extra\r\nsearch lan\nnameserver\nnameservers 9.9.9.9\n";
    assert_eq!(
        nameservers_from_resolv_conf(conf),
        vec!["127.0.0.53", "1.1.1.1", "9.9.9.9"]
    );
    assert!(nameservers_from_resolv_conf("").is_empty());
}

#[test]
fn resolvectl_servers_in_order() {
    let out = "Global\n       Protocols: +LLMNR\nLink 2 (eth0)\n    DNS Servers: 192.168.1.1 8.8.8.8\nCurrent DNS Server: 192.168.1.1\n    DNS Servers: fe80::1%eth0\n";
    assert_eq!(
        nameservers_from_resolvectl(out),
        vec!["192.168.1.1", "8.8.8.8", "fe80"]
    );
}

#[test]
fn resolvectl_is_used_only_when_resolv_conf_names_none() {
    let first = vec!["1.1.1.1".to_string()];
    assert_eq!(system_dns_servers(first.clone(), Some("DNS Servers: 9.9.9.9")), first);
    assert_eq!(system_dns_servers(vec![], Some("DNS Servers: 9.9.9.9")), vec!["9.9.9.9"]);
    assert!(system_dns_servers(vec![], None).is_empty());
}

#[test]
fn whitespace_is_unicode_white_space() {
    assert!(is_whitespace(' '));
    assert!(is_whitespace('\t'));
    assert!(is_whitespace('\u{3000}'));
    assert!(!is_whitespace('x'));
    for c in ['\u{85}', '\u{A0}', '\u{2009}', '\u{200B}', 'a', '\u{1680}'] {
        assert_eq!(is_whitespace(c), c.is_whitespace());
    }
}
