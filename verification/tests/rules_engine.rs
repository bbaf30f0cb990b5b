use dnsflow::rules::RulesEngine;
use dnsflow::state::{AppRule, DnsServer};

fn server(id: i64, address: &str) -> DnsServer {
    DnsServer {
        id: Some(id),
        name: format!("server {}", id),
        address: address.to_string(),
        secondary_address: None,
        protocol: "udp".to_string(),
        is_default: false,
    }
}

fn rule(id: i64, app_name: &str, app_path: Option<&str>, server_id: i64, enabled: bool) -> AppRule {
    AppRule {
        id: Some(id),
        app_name: app_name.to_string(),
        app_path: app_path.map(|p| p.to_string()),
        dns_server_id: server_id,
        enabled,
        use_ld_preload: false,
    }
}

#[test]
fn test_rules_engine_lookup() {
    let mut engine = RulesEngine::new(60);

    let server = DnsServer {
        id: Some(1),
        name: "Test DNS".to_string(),
        address: "8.8.8.8".to_string(),
        secondary_address: None,
        protocol: "udp".to_string(),
        is_default: false,
    };

    let rule = AppRule {
        id: Some(1),
        app_name: "test_app".to_string(),
        app_path: Some("/usr/bin/test".to_string()),
        dns_server_id: 1,
        enabled: true,
        use_ld_preload: false,
    };

    engine.load_dns_servers(vec![server]);
    engine.load_rules(vec![rule], None);

    let result = engine.lookup_by_app_name("test_app");
    assert!(result.is_some(), "Should find matching rule");
    assert_eq!(result.unwrap().address, "8.8.8.8");
}

#[test]
fn test_rules_engine_disabled_rule() {
    let mut engine = RulesEngine::new(60);

    let server = DnsServer {
        id: Some(1),
        name: "Test DNS".to_string(),
        address: "8.8.8.8".to_string(),
        secondary_address: None,
        protocol: "udp".to_string(),
        is_default: false,
    };

    let rule = AppRule {
        id: Some(1),
        app_name: "test_app".to_string(),
        app_path: None,
        dns_server_id: 1,
        enabled: false,
        use_ld_preload: false,
    };

    engine.load_dns_servers(vec![server]);
    engine.load_rules(vec![rule], None);

    let result = engine.lookup_by_app_name("test_app");
    assert!(result.is_none(), "Disabled rule should not match");
}

#[test]
fn first_matching_rule_wins() {
    let mut engine = RulesEngine::new(60);
    engine.load_dns_servers(vec![server(1, "1.1.1.1"), server(2, "9.9.9.9")]);
    engine.load_rules(
        vec![
            rule(10, "curl", None, 2, true),
            rule(11, "curl", None, 1, true),
        ],
        None,
    );
    assert_eq!(engine.route_app("curl").unwrap().address, "9.9.9.9");
}

#[test]
fn rule_with_unknown_server_is_passed_over() {
    let mut engine = RulesEngine::new(60);
    engine.load_dns_servers(vec![server(1, "1.1.1.1")]);
    engine.load_rules(
        vec![rule(10, "curl", None, 99, true), rule(11, "curl", None, 1, true)],
        None,
    );
    assert_eq!(engine.route_app("curl").unwrap().address, "1.1.1.1");
}

#[test]
fn path_rule_matches_application_containing_the_path() {
    let mut engine = RulesEngine::new(60);
    engine.load_dns_servers(vec![server(1, "1.1.1.1")]);
    engine.load_rules(vec![rule(10, "other", Some("/usr/bin/fire"), 1, true)], None);
    assert!(engine.route_app("/usr/bin/firefox").is_some());
    assert!(engine.route_app("firefox").is_none());
}

#[test]
fn process_rules_match_by_path_or_name() {
    let mut engine = RulesEngine::new(60);
    engine.load_dns_servers(vec![server(1, "1.1.1.1"), server(2, "8.8.8.8")]);
    engine.load_rules(
        vec![
            rule(10, "chrom", Some("/opt/google"), 1, true),
            rule(11, "curl", None, 2, true),
        ],
        None,
    );
    assert_eq!(
        engine.route_process("/opt/google/chrome/chrome", "x").unwrap().address,
        "1.1.1.1"
    );
    assert_eq!(engine.route_process("/usr/bin/x", "chromium").unwrap().address, "1.1.1.1");
    assert_eq!(engine.route_process("/usr/bin/curl", "curl").unwrap().address, "8.8.8.8");
    assert!(engine.route_process("/usr/bin/wget", "wget").is_none());
}

#[test]
fn bound_rule_takes_precedence_over_matching() {
    let mut engine = RulesEngine::new(60);
    engine.load_dns_servers(vec![server(1, "1.1.1.1"), server(2, "8.8.8.8")]);
    engine.load_rules(
        vec![rule(10, "curl", None, 1, true), rule(11, "other", None, 2, true)],
        None,
    );
    assert_eq!(
        engine.select_server(Some(11), "/usr/bin/curl", "curl").unwrap().address,
        "8.8.8.8"
    );
    assert_eq!(
        engine.select_server(Some(99), "/usr/bin/curl", "curl").unwrap().address,
        "1.1.1.1"
    );
    assert_eq!(engine.route_forced(11).unwrap().address, "8.8.8.8");
    assert!(engine.route_forced(99).is_none());
}

#[test]
fn disabled_bound_rule_does_not_route() {
    let mut engine = RulesEngine::new(60);
    engine.load_dns_servers(vec![server(1, "1.1.1.1")]);
    engine.load_rules(vec![rule(10, "curl", None, 1, false)], None);
    assert!(engine.route_forced(10).is_none());
    assert!(engine.select_server(Some(10), "/usr/bin/curl", "curl").is_none());
}

#[test]
fn app_answer_is_remembered_until_rules_reload() {
    let mut engine = RulesEngine::new(60);
    engine.load_dns_servers(vec![server(1, "1.1.1.1")]);
    engine.load_rules(vec![rule(10, "curl", None, 1, true)], None);
    assert!(engine.lookup_by_app_name("curl").is_some());
    engine.load_dns_servers(vec![server(1, "2.2.2.2")]);
    assert_eq!(engine.lookup_by_app_name("curl").unwrap().address, "1.1.1.1");
    engine.clear_cache();
    assert_eq!(engine.lookup_by_app_name("curl").unwrap().address, "2.2.2.2");
}

#[test]
fn sessions_track_and_untrack() {
    let mut engine = RulesEngine::new(60);
    engine.track_session(100, 7);
    engine.track_session(200, 8);
    engine.track_session(100, 9);
    assert_eq!(engine.session_of(100), Some(9));
    let active = engine.get_active_sessions();
    assert_eq!(active.get(&9), Some(&100));
    assert_eq!(active.get(&8), Some(&200));
    assert_eq!(active.get(&7), None);
    engine.untrack_session(100);
    assert_eq!(engine.session_of(100), None);
    assert_eq!(engine.session_of(200), Some(8));
}

#[test]
fn load_rules_reports_shim_settings() {
    let mut engine = RulesEngine::new(60);
    let mut r = rule(10, "curl", None, 1, true);
    let s = engine.load_rules(vec![r.clone()], None);
    assert!(!s.intercept);
    assert_eq!(s.proxy_port, 5353);
    assert_eq!(s.proxy_addr, "127.0.0.53:53");
    r.use_ld_preload = true;
    let s = engine.load_rules(vec![r.clone()], Some("127.0.0.54:53"));
    assert!(s.intercept);
    assert_eq!(s.proxy_port, 5353);
    assert_eq!(s.proxy_addr, "127.0.0.54:53");
    let s = engine.load_rules(vec![r.clone()], Some("127.0.0.1:5353"));
    assert_eq!(s.proxy_port, 5353);
    assert_eq!(s.proxy_addr, "127.0.0.1:5353");
    r.enabled = false;
    let s = engine.load_rules(vec![r], None);
    assert!(!s.intercept);
}

#[test]
fn session_of_own_process_routes_its_queries() {
    let mut engine = RulesEngine::new(60);
    engine.load_dns_servers(vec![server(1, "1.1.1.1"), server(2, "8.8.8.8")]);
    engine.load_rules(vec![rule(10, "zzz-no-such-name", None, 2, true)], None);
    let me = procfs::process::Process::myself().unwrap().pid as u32;
    engine.track_session(me, 10);
    // Sessions are looked up only for PIDs above 1 (never for init).
    let expected = if me > 1 { Some("8.8.8.8".to_string()) } else { None };
    let first = engine.lookup_by_pid(me as i32).map(|s| s.address);
    assert_eq!(first, expected);
    engine.untrack_session(me);
    assert_eq!(engine.lookup_by_pid(me as i32).map(|s| s.address), expected);
    engine.clear_cache();
    assert!(engine.lookup_by_pid(me as i32).is_none());
}

#[test]
fn unknown_process_has_no_server() {
    let mut engine = RulesEngine::new(60);
    engine.load_dns_servers(vec![server(1, "1.1.1.1")]);
    engine.load_rules(vec![rule(10, "curl", None, 1, true)], None);
    assert!(engine.lookup_by_pid(i32::MAX).is_none());
}


fn proc_info(pid: i64, ppid: i64, name: &str, exe: Option<&str>, rule_id: Option<i64>) -> dnsflow::state::ProcessInfo {
    dnsflow::state::ProcessInfo {
        pid,
        ppid: Some(ppid),
        name: name.to_string(),
        exe_path: exe.map(|e| e.to_string()),
        cmdline: None,
        rule_id,
    }
}

#[test]
fn ancestor_matching_a_rule_routes_its_child() {
    let mut engine = RulesEngine::new(60);
    engine.load_dns_servers(vec![server(1, "1.1.1.1")]);
    engine.load_rules(vec![rule(10, "firefox", None, 1, true)], None);
    let child = proc_info(50, 40, "Web Content", Some("/usr/lib/firefox/firefox-bin"), None);
    let parent = proc_info(40, 1, "firefox", Some("/usr/lib/firefox/firefox"), None);
    let chain = vec![child.clone(), parent];
    assert_eq!(engine.walk_found(50, &chain), None);
    assert_eq!(
        engine.route_for_chain(50, &chain, Some(child.clone())).unwrap().address,
        "1.1.1.1"
    );
    assert!(engine.route_for_chain(50, &vec![child.clone()], Some(child.clone())).is_none());
    assert!(engine.route_for_chain(50, &chain, None).is_none());
}

#[test]
fn walk_finds_nearest_session_or_launch_rule() {
    let mut engine = RulesEngine::new(60);
    engine.load_dns_servers(vec![server(1, "1.1.1.1"), server(2, "8.8.8.8")]);
    engine.load_rules(
        vec![rule(10, "zzz", None, 1, true), rule(11, "web", None, 2, true)],
        None,
    );
    let a = proc_info(30, 20, "web", None, None);
    let b = proc_info(20, 10, "shell", None, Some(10));
    let c = proc_info(10, 1, "launcher", None, None);
    let chain = vec![a.clone(), b, c];
    assert_eq!(engine.walk_found(30, &chain), Some(10));
    assert_eq!(engine.route_for_chain(30, &chain, Some(a.clone())).unwrap().address, "1.1.1.1");
    engine.track_session(30, 11);
    assert_eq!(engine.walk_found(30, &chain), Some(11));
    engine.untrack_session(30);
    engine.track_session(10, 11);
    assert_eq!(engine.walk_found(30, &chain), Some(10));
    assert_eq!(engine.walk_found(1, &chain), None);
}
