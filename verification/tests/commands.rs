use dnsflow::commands::{
    choose_save_dir, config_file_name, launch_failure, owner_arg, session_kill_arg, user_dirs,
};
use dnsflow::querylog::{absorb, BatchEvent};
use dnsflow::state::DnsQueryLog;

fn entry(domain: &str) -> DnsQueryLog {
    DnsQueryLog {
        id: None,
        domain: domain.to_string(),
        pid: None,
        app_name: None,
        dns_server_id: None,
        resolved_ip: None,
        latency_ms: None,
        timestamp: String::new(),
    }
}

#[test]
fn session_is_killed_by_negated_id() {
    assert_eq!(session_kill_arg("  4242\n"), Some("-4242".to_string()));
    assert_eq!(session_kill_arg(" \n"), None);
    assert_eq!(session_kill_arg(""), None);
}

#[test]
fn export_location_and_name() {
    assert_eq!(
        user_dirs("bob"),
        ("/home/bob/Downloads".to_string(), "/home/bob".to_string())
    );
    assert_eq!(choose_save_dir("/tmp".to_string(), Some("bob"), true, true), "/home/bob/Downloads");
    assert_eq!(choose_save_dir("/tmp".to_string(), Some("bob"), false, true), "/home/bob");
    assert_eq!(choose_save_dir("/tmp".to_string(), Some("bob"), false, false), "/tmp");
    assert_eq!(choose_save_dir("/dl".to_string(), None, true, true), "/dl");
    assert_eq!(
        config_file_name("2024-01-02-030405"),
        "dnsflow-config-2024-01-02-030405.json"
    );
    assert_eq!(owner_arg(1000, 100), "1000:100");
}

#[test]
fn launch_failures_name_the_application() {
    assert_eq!(
        launch_failure("/usr/bin/x", "not found"),
        "Failed to launch '/usr/bin/x': not found"
    );
}

#[test]
fn batches_end_when_full_closed_or_idle() {
    let mut batch = Vec::new();
    assert!(!absorb(&mut batch, BatchEvent::Entry(entry("a.")), 3));
    assert!(!absorb(&mut batch, BatchEvent::Entry(entry("b.")), 3));
    assert!(absorb(&mut batch, BatchEvent::Entry(entry("c.")), 3));
    assert_eq!(batch.len(), 3);
    assert_eq!(batch[2].domain, "c.");
    let mut batch = vec![entry("a.")];
    assert!(absorb(&mut batch, BatchEvent::Closed, 3));
    assert!(absorb(&mut batch, BatchEvent::TimedOut, 3));
    assert_eq!(batch.len(), 1);
    let mut batch = Vec::new();
    assert!(absorb(&mut batch, BatchEvent::Entry(entry("z.")), 0));
    assert_eq!(batch.len(), 1);
}
