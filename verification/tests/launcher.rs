use dnsflow::launcher::{
    browser_dns_args, firefox_policy_dirs, launch_command, launch_env_parts, path_basename,
    program_name_of, shell_quote, sudo_identity, LaunchContext,
};

fn ctx() -> LaunchContext {
    LaunchContext {
        uid: 1000,
        user: "alice".to_string(),
        shim_path: Some("/usr/lib/dnsflow/libdnsflow_shim.so".to_string()),
        display: Some(":0".to_string()),
        wayland_display: None,
        xauthority: Some("/root/.Xauthority".to_string()),
        rules_path: "/run/user/1000/dnsflow_rules.json".to_string(),
    }
}

#[test]
fn basename_and_program_name() {
    assert_eq!(path_basename("/usr/bin/google-chrome"), "google-chrome");
    assert_eq!(path_basename("firefox"), "firefox");
    assert_eq!(path_basename("/opt/app/"), "");
    assert_eq!(program_name_of("/Applications/Brave Browser"), "brave browser");
}

#[test]
fn chromium_family_gets_dns_flags() {
    let expected = vec![
        "--disable-features=AsyncDns,DnsOverHttps,SecureDns",
        "--dns-result-order=ipv4first",
    ];
    assert_eq!(browser_dns_args("/usr/bin/google-chrome-stable"), expected);
    assert_eq!(browser_dns_args("/usr/bin/Chromium"), expected);
    assert_eq!(browser_dns_args("/opt/vivaldi/vivaldi"), expected);
    assert!(browser_dns_args("/usr/bin/firefox").is_empty());
    assert!(browser_dns_args("/opt/chrome/curl").is_empty());
}

#[test]
fn firefox_family_policy_directories() {
    assert_eq!(firefox_policy_dirs("/usr/bin/firefox"), vec!["/etc/firefox/policies"]);
    assert_eq!(
        firefox_policy_dirs("/usr/bin/firefox-esr"),
        vec!["/etc/firefox-esr/policies"]
    );
    assert_eq!(
        firefox_policy_dirs("/usr/bin/LibreWolf"),
        vec!["/etc/librewolf/policies"]
    );
    assert_eq!(
        firefox_policy_dirs("/opt/waterfox-palemoon"),
        vec!["/etc/waterfox/policies", "/etc/palemoon/policies"]
    );
    assert!(firefox_policy_dirs("/usr/bin/chromium").is_empty());
}

#[test]
fn shell_quoting_escapes_single_quotes() {
    assert_eq!(shell_quote("/usr/bin/app"), "'/usr/bin/app'");
    assert_eq!(shell_quote("it's"), "'it'\\''s'");
    assert_eq!(shell_quote(""), "''");
}

#[test]
fn launch_environment_in_order() {
    let env = launch_env_parts(&ctx(), Some(7));
    assert_eq!(
        env,
        vec![
            "HOME=/home/alice",
            "USER=alice",
            "LOGNAME=alice",
            "XDG_RUNTIME_DIR=/run/user/1000",
            "DBUS_SESSION_BUS_ADDRESS=unix:path=/run/user/1000/bus",
            "LD_PRELOAD=/usr/lib/dnsflow/libdnsflow_shim.so",
            "DISPLAY=:0",
            "XAUTHORITY=/home/alice/.Xauthority",
            "DNSFLOW_RULES=/run/user/1000/dnsflow_rules.json",
            "DNSFLOW_RULE_ID=7",
        ]
    );
    let mut c = ctx();
    c.shim_path = None;
    c.display = None;
    c.wayland_display = Some("wayland-0".to_string());
    c.xauthority = Some("/tmp/xauth".to_string());
    let env = launch_env_parts(&c, None);
    assert_eq!(env.len(), 8);
    assert_eq!(env[5], "WAYLAND_DISPLAY=wayland-0");
    assert_eq!(env[6], "XAUTHORITY=/tmp/xauth");
    c.xauthority = None;
    assert_eq!(launch_env_parts(&c, Some(-3))[6], "XAUTHORITY=/home/alice/.Xauthority");
    assert_eq!(launch_env_parts(&c, Some(-3))[8], "DNSFLOW_RULE_ID=-3");
}

#[test]
fn launch_command_runs_in_mount_namespace() {
    let mut c = ctx();
    c.shim_path = None;
    c.display = None;
    c.xauthority = None;
    let cmd = launch_command(&c, "/usr/bin/google-chrome", None);
    assert_eq!(
        cmd,
        "mount --make-rprivate / && mount --bind /tmp/dnsflow_resolv.conf /etc/resolv.conf && \
exec setsid sudo -u alice env HOME=/home/alice USER=alice LOGNAME=alice \
XDG_RUNTIME_DIR=/run/user/1000 DBUS_SESSION_BUS_ADDRESS=unix:path=/run/user/1000/bus \
XAUTHORITY=/home/alice/.Xauthority DNSFLOW_RULES=/run/user/1000/dnsflow_rules.json \
'/usr/bin/google-chrome' '--disable-features=AsyncDns,DnsOverHttps,SecureDns' \
'--dns-result-order=ipv4first'"
    );
}

#[test]
fn sudo_identity_requires_all_three() {
    assert_eq!(
        sudo_identity(Some("1000"), Some("1000"), Some("alice")).unwrap(),
        (1000, "alice".to_string())
    );
    assert_eq!(
        sudo_identity(None, Some("1000"), Some("alice")).unwrap_err(),
        "SUDO_UID not set — must run via sudo"
    );
    assert_eq!(
        sudo_identity(Some("x"), Some("1000"), Some("alice")).unwrap_err(),
        "SUDO_UID not set — must run via sudo"
    );
    assert_eq!(
        sudo_identity(Some("1000"), Some("-1"), Some("alice")).unwrap_err(),
        "SUDO_GID not set — must run via sudo"
    );
    assert_eq!(
        sudo_identity(Some("1000"), Some("1000"), None).unwrap_err(),
        "SUDO_USER not set — must run via sudo"
    );
}

#[test]
fn shim_is_looked_for_in_order() {
    let c = dnsflow::launcher::shim_candidates("/opt/dnsflow/bin", "");
    assert_eq!(c.len(), 11);
    assert_eq!(c[0], "/opt/dnsflow/bin/libdnsflow_shim.so");
    assert_eq!(c[1], "/opt/dnsflow/bin/../lib/dnsflow/libdnsflow_shim.so");
    assert_eq!(c[2], "/usr/lib/dnsflow/libdnsflow_shim.so");
    assert_eq!(c[3], "/usr/local/lib/dnsflow/libdnsflow_shim.so");
    assert_eq!(c[4], "libdnsflow_shim.so");
    assert_eq!(c[10], "../../libdnsflow_shim.so");
    let d = dnsflow::launcher::shim_candidates("/", "/home/u/");
    assert_eq!(d[0], "/libdnsflow_shim.so");
    assert_eq!(d[6], "/home/u/target/debug/libdnsflow_shim.so");
}
