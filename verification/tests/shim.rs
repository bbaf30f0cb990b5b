use dnsflow::shim::{
    get_proxy_addr, join_path, rules_file_path, shim_rules_path, should_intercept, takes_over,
    SHIM_QUERY_ID,
};

#[test]
fn settings_file_locations() {
    assert_eq!(shim_rules_path(Some("/run/user/1000")), "/run/user/1000/dnsflow_rules.json");
    assert_eq!(shim_rules_path(Some("/run/user/1000/")), "/run/user/1000/dnsflow_rules.json");
    assert_eq!(shim_rules_path(None), "/tmp/dnsflow_rules.json");
    assert_eq!(join_path("", "f"), "f");
    assert_eq!(rules_file_path(Some("/x/rules.json"), Some("/run/user/1")), "/x/rules.json");
    assert_eq!(rules_file_path(None, Some("/run/user/1")), "/run/user/1/dnsflow_rules.json");
    assert_eq!(rules_file_path(None, Some("/run/user/1/")), "/run/user/1//dnsflow_rules.json");
    assert_eq!(rules_file_path(None, None), "/tmp/dnsflow_rules.json");
}

#[test]
fn settings_are_read_from_json() {
    let on = r#"{"intercept":true,"proxy_port":5353}"#;
    assert!(should_intercept(Some(on)));
    assert_eq!(get_proxy_addr(Some(on)), "127.0.0.1:5353");
    let full = r#"{"intercept":true,"proxy_port":5353,"proxy_addr":"127.0.0.54:53"}"#;
    assert!(should_intercept(Some(full)));
    assert_eq!(get_proxy_addr(Some(full)), "127.0.0.54:53");
    assert_eq!(get_proxy_addr(Some(r#"{"proxy_addr":"127.0.0.53:53"}"#)), "127.0.0.53:53");
    let off = r#"{"intercept": false, "proxy_port": 8053}"#;
    assert!(!should_intercept(Some(off)));
    assert_eq!(get_proxy_addr(Some(off)), "127.0.0.1:8053");
    assert!(!should_intercept(Some(r#"{"intercept":"yes","proxy_port":"53"}"#)));
    assert_eq!(get_proxy_addr(Some(r#"{"proxy_port":"53"}"#)), "127.0.0.53:53");
    assert_eq!(get_proxy_addr(Some(r#"{"proxy_port":70000}"#)), "127.0.0.53:53");
    assert!(!should_intercept(Some("not json")));
    assert_eq!(get_proxy_addr(Some("not json")), "127.0.0.53:53");
    assert!(!should_intercept(None));
    assert_eq!(get_proxy_addr(None), "127.0.0.53:53");
}

#[test]
fn local_names_are_left_alone() {
    assert!(!takes_over("localhost", true));
    assert!(!takes_over("127.0.0.1", true));
    assert!(!takes_over("::1", true));
    assert!(takes_over("example.com", true));
    assert!(!takes_over("example.com", false));
    assert_eq!(SHIM_QUERY_ID, 0x1234);
}
