use dnsflow::config::{
    check_config_version, config_from_rows, config_to_rows, remapped_server_id, server_id_map,
    DnsFlowConfig, CONFIG_VERSION,
};
use dnsflow::state::{AppConfig, AppRule, DnsServer};

fn rows(pairs: &[(&str, &str)]) -> Vec<(String, String)> {
    pairs.iter().map(|(k, v)| (k.to_string(), v.to_string())).collect()
}

#[test]
fn new_config_has_current_version() {
    let app_config = AppConfig {
        proxy_port: 5353,
        log_enabled: true,
        auto_start: false,
        debug: false,
    };
    let dns_servers = vec![DnsServer {
        id: Some(1),
        name: "Google".to_string(),
        address: "8.8.8.8".to_string(),
        secondary_address: None,
        protocol: "udp".to_string(),
        is_default: false,
    }];
    let app_rules = vec![AppRule {
        id: Some(1),
        app_name: "firefox".to_string(),
        app_path: Some("/usr/bin/firefox".to_string()),
        dns_server_id: 1,
        enabled: true,
        use_ld_preload: false,
    }];
    let config = DnsFlowConfig::new(app_config, dns_servers, app_rules);
    assert_eq!(config.version, "1.0");
    assert_eq!(CONFIG_VERSION, "1.0");
    assert_eq!(config.app_config.proxy_port, 5353);
    assert_eq!(config.dns_servers.len(), 1);
    assert_eq!(config.app_rules[0].app_name, "firefox");
}

#[test]
fn only_current_version_is_accepted() {
    assert!(check_config_version("1.0").is_ok());
    assert_eq!(
        check_config_version("2.0").unwrap_err(),
        "Unsupported config version: 2.0"
    );
    assert_eq!(
        check_config_version("").unwrap_err(),
        "Unsupported config version: "
    );
}

#[test]
fn settings_default_when_nothing_is_stored() {
    let c = config_from_rows(&vec![]);
    assert_eq!(c.proxy_port, 5353);
    assert!(c.log_enabled);
    assert!(!c.auto_start);
    assert!(!c.debug);
}

#[test]
fn settings_are_read_from_rows() {
    let c = config_from_rows(&rows(&[
        ("proxy_port", "53"),
        ("log_enabled", "false"),
        ("auto_start", "true"),
        ("debug", "true"),
        ("unknown", "x"),
    ]));
    assert_eq!(c.proxy_port, 53);
    assert!(!c.log_enabled);
    assert!(c.auto_start);
    assert!(c.debug);
}

#[test]
fn bad_port_falls_back_and_later_rows_win() {
    let c = config_from_rows(&rows(&[("proxy_port", "70000")]));
    assert_eq!(c.proxy_port, 5353);
    let c = config_from_rows(&rows(&[("proxy_port", "abc")]));
    assert_eq!(c.proxy_port, 5353);
    let c = config_from_rows(&rows(&[("debug", "true"), ("debug", "TRUE")]));
    assert!(!c.debug);
    let c = config_from_rows(&rows(&[("proxy_port", "+8053")]));
    assert_eq!(c.proxy_port, 8053);
}

#[test]
fn settings_are_written_as_rows() {
    let c = AppConfig {
        proxy_port: 8053,
        log_enabled: false,
        auto_start: true,
        debug: false,
    };
    assert_eq!(
        config_to_rows(&c),
        rows(&[
            ("proxy_port", "8053"),
            ("log_enabled", "false"),
            ("auto_start", "true"),
            ("debug", "false"),
        ])
    );
}

#[test]
fn settings_round_trip_through_rows() {
    for port in [0u16, 7, 53, 5353, 65535] {
        for flags in 0..8u8 {
            let c = AppConfig {
                proxy_port: port,
                log_enabled: flags & 1 != 0,
                auto_start: flags & 2 != 0,
                debug: flags & 4 != 0,
            };
            let back = config_from_rows(&config_to_rows(&c));
            assert_eq!(back.proxy_port, c.proxy_port);
            assert_eq!(back.log_enabled, c.log_enabled);
            assert_eq!(back.auto_start, c.auto_start);
            assert_eq!(back.debug, c.debug);
        }
    }
}

#[test]
fn imported_server_ids_are_remapped() {
    let m = server_id_map(&vec![(Some(1), Some(10)), (None, Some(11)), (Some(2), None), (Some(1), Some(13))]);
    assert_eq!(m.len(), 1);
    assert_eq!(remapped_server_id(&m, 1), 13);
    assert_eq!(remapped_server_id(&m, 2), 2);
    assert_eq!(remapped_server_id(&m, 5), 5);
}

#[test]
fn stored_settings_read_back_in_any_row_order() {
    let c = AppConfig { proxy_port: 8053, log_enabled: false, auto_start: true, debug: true };
    let mut rows = config_to_rows(&c);
    rows.reverse();
    rows.insert(1, ("theme".to_string(), "dark".to_string()));
    let back = config_from_rows(&rows);
    assert_eq!(back.proxy_port, 8053);
    assert!(!back.log_enabled);
    assert!(back.auto_start);
    assert!(back.debug);
}
