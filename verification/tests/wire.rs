use dnsflow::wire::{build_dns_query, encode_dns_name, parse_dns_response, skip_dns_name};

#[test]
fn name_is_encoded_as_length_prefixed_labels() {
    let mut p = vec![9u8];
    encode_dns_name(&mut p, "www.example.com");
    assert_eq!(
        p,
        vec![9, 3, b'w', b'w', b'w', 7, b'e', b'x', b'a', b'm', b'p', b'l', b'e', 3, b'c', b'o', b'm', 0]
    );
    let mut q = Vec::new();
    encode_dns_name(&mut q, "a..b");
    assert_eq!(q, vec![1, b'a', 0, 1, b'b', 0]);
}

#[test]
fn query_has_header_question_type_and_class() {
    let q = build_dns_query(0x1234, "a.io");
    assert_eq!(
        q,
        vec![
            0x12, 0x34, 0x01, 0x00, 0, 1, 0, 0, 0, 0, 0, 0, 1, b'a', 2, b'i', b'o', 0, 0, 1, 0, 1
        ]
    );
}

#[test]
fn skipping_names() {
    let q = build_dns_query(1, "example.org");
    assert_eq!(skip_dns_name(&q, 12) + 4, q.len());
    assert_eq!(skip_dns_name(&[0xC0, 0x0C], 0), 2);
    assert_eq!(skip_dns_name(&[3, b'a'], 0), 4);
    assert_eq!(skip_dns_name(&[], 0), 0);
}

#[test]
fn response_addresses_are_read() {
    let mut r = build_dns_query(5, "ab.c");
    r[7] = 2;
    r.extend_from_slice(&[0xC0, 12, 0, 1, 0, 1, 0, 0, 1, 44, 0, 4, 10, 0, 0, 1]);
    r.extend_from_slice(&[0xC0, 12, 0, 28, 0, 1, 0, 0, 1, 44, 0, 2, 0xAA, 0xBB]);
    assert_eq!(parse_dns_response(&r), vec![[10, 0, 0, 1]]);
    r[7] = 3;
    r.extend_from_slice(&[0xC0, 12, 0, 1, 0, 1, 0, 0, 1, 44, 0, 4, 10, 0, 0, 2]);
    assert_eq!(parse_dns_response(&r), vec![[10, 0, 0, 1], [10, 0, 0, 2]]);
}

#[test]
fn query_read_as_response_has_no_addresses() {
    assert!(parse_dns_response(&build_dns_query(9, "example.com")).is_empty());
    assert!(parse_dns_response(&[1, 2, 3]).is_empty());
}

#[test]
fn encoded_names_are_skipped_anywhere() {
    let mut p = vec![0xAA, 0xBB, 0xCC];
    encode_dns_name(&mut p, "www.example.com");
    let end = p.len();
    p.extend_from_slice(&[0, 1, 0, 1, 0xC0]);
    assert_eq!(skip_dns_name(&p, 3), end);
}
