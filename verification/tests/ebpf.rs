use dnsflow::ebpf::{EbpfMapManager, EbpfMapType, RuleManager};

#[test]
fn created_map_is_found_by_name() {
    let mut m = EbpfMapManager::new();
    assert!(m.get_map("EVENTS").is_none());
    assert!(m.create_map("EVENTS", EbpfMapType::RingBuf, 1024).is_ok());
    let map = m.get_map("EVENTS").unwrap();
    assert_eq!(map.name, "EVENTS");
    assert!(map.map_type == EbpfMapType::RingBuf);
    assert_eq!(map.max_entries, 1024);
}

#[test]
fn creating_again_replaces_the_description() {
    let mut m = EbpfMapManager::default();
    m.create_map("RULES", EbpfMapType::Hash, 16).unwrap();
    m.create_map("EVENTS", EbpfMapType::PerCpuArray, 4).unwrap();
    m.create_map("RULES", EbpfMapType::Array, 1024).unwrap();
    let rules = m.get_map("RULES").unwrap();
    assert!(rules.map_type == EbpfMapType::Array);
    assert_eq!(rules.max_entries, 1024);
    assert_eq!(m.get_map("EVENTS").unwrap().max_entries, 4);
}

#[test]
fn deleting_reports_whether_there_was_one() {
    let mut m = EbpfMapManager::new();
    m.create_map("RULES", EbpfMapType::PerCpuHash, 8).unwrap();
    m.create_map("EVENTS", EbpfMapType::Hash, 8).unwrap();
    assert!(m.delete_map("RULES"));
    assert!(m.get_map("RULES").is_none());
    assert!(!m.delete_map("RULES"));
    assert!(m.get_map("EVENTS").is_some());
    let _r = RuleManager::new();
    let _d = RuleManager::default();
}
