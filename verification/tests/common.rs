use dnsflow::common::{decode_event, event_from_raw, trim_trailing_nuls, DnsEvent, EVENT_SIZE};

fn layout(pid: u32, tgid: u32, uid: u32, gid: u32, comm: &[u8; 16], daddr: [u8; 4], dport: u16, is_dns: bool) -> Vec<u8> {
    let mut b = Vec::new();
    b.extend_from_slice(&pid.to_le_bytes());
    b.extend_from_slice(&tgid.to_le_bytes());
    b.extend_from_slice(&uid.to_le_bytes());
    b.extend_from_slice(&gid.to_le_bytes());
    b.extend_from_slice(comm);
    b.extend_from_slice(&daddr);
    b.extend_from_slice(&dport.to_le_bytes());
    b.push(is_dns as u8);
    b.push(0);
    b
}

#[test]
fn probe_splits_the_id_words() {
    let e = DnsEvent::from_probe(0x0000_1234_0000_5678, 0x0000_03E8_0000_03E9, None);
    assert_eq!(e.pid, 0x1234);
    assert_eq!(e.tgid, 0x5678);
    assert_eq!(e.uid, 1000);
    assert_eq!(e.gid, 1001);
    assert_eq!(e.comm, [0u8; 16]);
    assert_eq!(e.daddr, [0, 0, 0, 0]);
    assert_eq!(e.dport, 53);
    assert!(e.is_dns);
    let mut comm = [0u8; 16];
    comm[..4].copy_from_slice(b"curl");
    let e = DnsEvent::from_probe(u64::MAX, 0, Some(comm));
    assert_eq!(e.pid, u32::MAX);
    assert_eq!(e.tgid, u32::MAX);
    assert_eq!(e.comm, comm);
}

#[test]
fn records_are_decoded_from_their_layout() {
    assert_eq!(EVENT_SIZE, 40);
    let mut comm = [0u8; 16];
    comm[..4].copy_from_slice(b"dig\0");
    let b = layout(70000, 70001, 1000, 100, &comm, [1, 1, 1, 1], 53, true);
    assert_eq!(b.len(), EVENT_SIZE);
    let e = decode_event(&b).unwrap();
    assert_eq!(e.pid, 70000);
    assert_eq!(e.tgid, 70001);
    assert_eq!(e.uid, 1000);
    assert_eq!(e.gid, 100);
    assert_eq!(e.comm, comm);
    assert_eq!(e.daddr, [1, 1, 1, 1]);
    assert_eq!(e.dport, 53);
    assert!(e.is_dns);
    assert!(decode_event(&b[..39]).is_none());
}

#[test]
fn event_is_shown_with_text_fields() {
    let mut comm = [0u8; 16];
    comm[..8].copy_from_slice(b"firefox\0");
    let raw = DnsEvent {
        pid: 10,
        tgid: 11,
        uid: 12,
        gid: 13,
        comm,
        daddr: [192, 168, 0, 1],
        dport: 53,
        is_dns: true,
    };
    let e = event_from_raw(&raw);
    assert_eq!(e.pid, 10);
    assert_eq!(e.tgid, 11);
    assert_eq!(e.uid, 12);
    assert_eq!(e.gid, 13);
    assert_eq!(e.comm, "firefox");
    assert_eq!(e.daddr, "192.168.0.1");
    assert_eq!(e.dport, 53);
    assert!(e.is_dns);
    let mut bad = [0u8; 16];
    bad[0] = 0xFF;
    bad[1] = b'a';
    let raw = DnsEvent { comm: bad, ..raw };
    assert_eq!(event_from_raw(&raw).comm, "\u{FFFD}a");
}

#[test]
fn only_trailing_nuls_are_dropped() {
    assert_eq!(trim_trailing_nuls("a\0b\0\0"), "a\0b");
    assert_eq!(trim_trailing_nuls("\0\0"), "");
    assert_eq!(trim_trailing_nuls("abc"), "abc");
}
