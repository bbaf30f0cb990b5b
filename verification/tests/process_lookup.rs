use dnsflow::process::{
    describe_all, describe_process, lookup_result, owner_by_port, owner_from_reads, socket_inodes,
    LookupResult,
    ProcRead, ProcessLookup,
};

#[test]
fn test_process_lookup_new_is_empty() {
    let lookup = ProcessLookup::new();

    assert!(lookup.cache.is_empty());
}

#[test]
fn test_process_lookup_default_trait() {
    let lookup = ProcessLookup::default();

    assert!(lookup.cache.is_empty());
}

#[test]
fn test_clear_cache_empties_map() {
    let mut lookup = ProcessLookup::new();

    lookup.cache.insert(100, "firefox".to_string());
    lookup.cache.insert(200, "chrome".to_string());

    assert_eq!(lookup.cache.len(), 2);

    lookup.clear_cache();

    assert!(lookup.cache.is_empty());
}

#[test]
fn test_clear_cache_when_already_empty() {
    let mut lookup = ProcessLookup::new();

    assert!(lookup.cache.is_empty());

    lookup.clear_cache();

    assert!(lookup.cache.is_empty());
}

#[test]
fn test_get_name_returns_cached_name() {
    let mut lookup = ProcessLookup::new();

    lookup.cache.insert(100, "firefox".to_string());

    let name = lookup.get_name(100);
    assert_eq!(name, Some("firefox".to_string()));
}

#[test]
fn test_get_name_returns_none_for_nonexistent_pid() {
    let mut lookup = ProcessLookup::new();

    lookup.cache.insert(100, "firefox".to_string());

    let name = lookup.get_name(u32::MAX);
    assert_eq!(name, None);
}

#[test]
fn test_get_name_after_clear_cache() {
    let mut lookup = ProcessLookup::new();

    lookup.cache.insert(100, "firefox".to_string());
    lookup.clear_cache();

    let name = lookup.get_name(100);
    assert_eq!(name, None);
}

#[test]
fn test_lookup_result_debug() {
    let result = LookupResult {
        pid: 100,
        name: Some("test".to_string()),
        exe_path: Some("/usr/bin/test".to_string()),
        cmdline: Some("test --arg".to_string()),
    };

    let debug_str = format!("{:?}", result);
    assert!(debug_str.contains("LookupResult"));
    assert!(debug_str.contains("pid: 100"));
    assert!(debug_str.contains("name: Some(\"test\")"));
}

#[test]
fn test_lookup_result_clone() {
    let result = LookupResult {
        pid: 100,
        name: Some("test".to_string()),
        exe_path: Some("/usr/bin/test".to_string()),
        cmdline: Some("test --arg".to_string()),
    };

    let cloned = result.clone();
    assert_eq!(cloned.pid, result.pid);
    assert_eq!(cloned.name, result.name);
    assert_eq!(cloned.exe_path, result.exe_path);
    assert_eq!(cloned.cmdline, result.cmdline);
}

#[test]
fn test_lookup_result_with_none_fields() {
    let result = LookupResult {
        pid: 100,
        name: None,
        exe_path: None,
        cmdline: None,
    };

    assert_eq!(result.pid, 100);
    assert!(result.name.is_none());
    assert!(result.exe_path.is_none());
    assert!(result.cmdline.is_none());
}

#[test]
fn test_process_lookup_debug() {
    let mut lookup = ProcessLookup::new();
    lookup.cache.insert(100, "test".to_string());

    let debug_str = format!("{:?}", lookup);
    assert!(debug_str.contains("ProcessLookup"));
    assert!(debug_str.contains("cache"));
}

#[test]
fn test_cache_operations_multiple_pids() {
    let mut lookup = ProcessLookup::new();

    lookup.cache.insert(100, "firefox".to_string());
    lookup.cache.insert(200, "chrome".to_string());
    lookup.cache.insert(300, "curl".to_string());

    assert_eq!(lookup.cache.len(), 3);
    assert_eq!(lookup.get_name(100), Some("firefox".to_string()));
    assert_eq!(lookup.get_name(200), Some("chrome".to_string()));
    assert_eq!(lookup.get_name(300), Some("curl".to_string()));

    lookup.cache.remove(&200);
    assert_eq!(lookup.cache.len(), 2);
    assert_eq!(lookup.get_name(200), None);
}

#[test]
fn lookup_of_own_process_caches_its_name() {
    let mut lookup = ProcessLookup::new();
    let pid = procfs::process::Process::myself().unwrap().pid as u32;
    let result = lookup.lookup(pid).unwrap();
    assert_eq!(result.pid, pid);
    let name = result.name.clone().unwrap();
    assert!(!name.is_empty());
    assert_eq!(lookup.cache.get(&pid), Some(&name));
    assert_eq!(lookup.get_name(pid), Some(name));
}

#[test]
fn lookup_of_missing_process_fails_and_caches_nothing() {
    let mut lookup = ProcessLookup::new();
    assert!(lookup.lookup(u32::MAX).is_err());
    assert!(lookup.cache.is_empty());
}

#[test]
fn socket_owner_is_found_in_udp_before_tcp() {
    let procs = vec![(100, vec![11u64, 12]), (200, vec![21u64]), (300, vec![12u64])];
    let udp = vec![(53u16, 99u64), (53u16, 21u64)];
    let tcp = vec![(53u16, 11u64)];
    assert_eq!(owner_by_port(&procs, &udp, &tcp, 53), Some(200));
    assert_eq!(owner_by_port(&procs, &vec![], &tcp, 53), Some(100));
    assert_eq!(owner_by_port(&procs, &vec![(80, 12)], &vec![], 80), Some(300));
    assert_eq!(owner_by_port(&procs, &udp, &tcp, 80), None);
    assert_eq!(owner_by_port(&vec![], &udp, &tcp, 53), None);
}

#[test]
fn process_description_from_what_was_read() {
    let info = describe_process(
        42,
        7,
        "curl".to_string(),
        Some("/usr/bin/curl".to_string()),
        Some(vec!["curl".to_string(), "-s".to_string(), "x".to_string()]),
        Some("12".to_string()),
    );
    assert_eq!(info.pid, 42);
    assert_eq!(info.ppid, Some(7));
    assert_eq!(info.name, "curl");
    assert_eq!(info.exe_path, Some("/usr/bin/curl".to_string()));
    assert_eq!(info.cmdline, Some("curl -s x".to_string()));
    assert_eq!(info.rule_id, Some(12));
    let info = describe_process(1, 0, "init".to_string(), None, None, Some("x1".to_string()));
    assert_eq!(info.rule_id, None);
    assert_eq!(info.cmdline, None);
}

#[test]
fn only_socket_descriptors_count() {
    assert_eq!(socket_inodes(&vec![None, Some(7), None, Some(3)]), vec![7, 3]);
    assert!(socket_inodes(&vec![None, None]).is_empty());
    assert!(socket_inodes(&vec![]).is_empty());
}

#[test]
fn owner_is_found_from_what_was_read() {
    let reads = vec![
        (100, Some(vec![Some(11u64), None])),
        (150, None),
        (200, Some(vec![None, Some(21u64)])),
    ];
    let udp = Some(vec![(53u16, 21u64)]);
    let tcp = Some(vec![(53u16, 11u64)]);
    assert_eq!(owner_from_reads(&reads, &udp, &tcp, 53), Some(200));
    assert_eq!(owner_from_reads(&reads, &None, &tcp, 53), Some(100));
    assert_eq!(owner_from_reads(&reads, &None, &None, 53), None);
    assert_eq!(owner_from_reads(&reads, &Some(vec![(80, 99)]), &tcp, 80), None);
}

fn read_of(pid: i64, stat: Option<(i32, &str)>, rule: Option<&str>) -> ProcRead {
    ProcRead {
        pid,
        stat: stat.map(|(pp, c)| (pp, c.to_string())),
        exe: Some(format!("/usr/bin/p{}", pid)),
        cmdline: Some(vec![format!("p{}", pid), "-v".to_string()]),
        rule_var: rule.map(|r| r.to_string()),
    }
}

#[test]
fn every_readable_process_is_listed_by_pid() {
    let reads = vec![
        read_of(30, Some((1, "thirty")), None),
        read_of(10, Some((1, "ten")), Some("4")),
        read_of(20, None, None),
        read_of(5, Some((30, "five")), Some("x")),
    ];
    let v = describe_all(&reads);
    let pids: Vec<i64> = v.iter().map(|p| p.pid).collect();
    assert_eq!(pids, vec![5, 10, 30]);
    assert_eq!(v[0].name, "five");
    assert_eq!(v[0].ppid, Some(30));
    assert_eq!(v[0].rule_id, None);
    assert_eq!(v[1].rule_id, Some(4));
    assert_eq!(v[1].exe_path, Some("/usr/bin/p10".to_string()));
    assert_eq!(v[2].cmdline, Some("p30 -v".to_string()));
    assert!(describe_all(&vec![read_of(1, None, None)]).is_empty());
}

#[test]
fn lookup_result_joins_the_arguments() {
    let res = lookup_result(
        77,
        "bash".to_string(),
        Some("/bin/bash".to_string()),
        Some(vec!["bash".to_string(), "-c".to_string(), "true".to_string()]),
    );
    assert_eq!(res.pid, 77);
    assert_eq!(res.name, Some("bash".to_string()));
    assert_eq!(res.exe_path, Some("/bin/bash".to_string()));
    assert_eq!(res.cmdline, Some("bash -c true".to_string()));
    let bare = lookup_result(78, "x".to_string(), None, None);
    assert_eq!(bare.exe_path, None);
    assert_eq!(bare.cmdline, None);
}
