use dns_codec::{parse_label_sequence, parse_query, DnsError};

fn example_com() -> Vec<u8> {
    let mut v = vec![7u8];
    v.extend_from_slice(b"example");
    v.push(3);
    v.extend_from_slice(b"com");
    v.push(0);
    v
}

#[test]
fn label_decode_without_compression() {
    let buf = example_com();
    let (raw, name, end) = parse_label_sequence(&buf, 0).unwrap();
    assert_eq!(name, "example.com");
    assert_eq!(raw, b"\x07example\x03com\x00".to_vec());
    assert_eq!(end, 13);
}

#[test]
fn label_decode_with_compression() {
    let mut buf = example_com();
    buf.push(0xc0);
    buf.push(0x00);
    let (raw, name, end) = parse_label_sequence(&buf, 13).unwrap();
    assert_eq!(name, "example.com");
    assert_eq!(raw, example_com());
    assert_eq!(end, 15);
}

#[test]
fn label_decode_labels_before_pointer() {
    let mut buf = example_com();
    buf.push(3);
    buf.extend_from_slice(b"www");
    buf.push(0xc0);
    buf.push(0x00);
    let (raw, name, end) = parse_label_sequence(&buf, 13).unwrap();
    assert_eq!(name, "www.example.com");
    assert_eq!(raw, b"\x03www\x07example\x03com\x00".to_vec());
    assert_eq!(end, 19);
}

#[test]
fn label_decode_root_name() {
    let buf = [0u8];
    let (raw, name, end) = parse_label_sequence(&buf, 0).unwrap();
    assert_eq!(name, "");
    assert_eq!(raw, vec![0]);
    assert_eq!(end, 1);
}

#[test]
fn label_decode_invalid_utf8_is_lossy() {
    let buf = [2u8, 0xff, b'a', 0];
    let (raw, name, end) = parse_label_sequence(&buf, 0).unwrap();
    assert_eq!(name, "\u{fffd}a");
    assert_eq!(raw, vec![2, 0xff, b'a', 0]);
    assert_eq!(end, 4);
}

#[test]
fn label_length_past_end_is_incomplete() {
    let buf = [7u8, b'e', b'x', b'a'];
    assert_eq!(
        parse_label_sequence(&buf, 0),
        Err(DnsError::IncompleteLabelSequence)
    );
}

#[test]
fn label_without_terminator_is_incomplete() {
    let buf = [3u8, b'c', b'o', b'm'];
    assert_eq!(
        parse_label_sequence(&buf, 0),
        Err(DnsError::IncompleteLabelSequence)
    );
    assert_eq!(
        parse_label_sequence(&buf, 4),
        Err(DnsError::IncompleteLabelSequence)
    );
}

#[test]
fn pointer_cut_short_is_incomplete() {
    let buf = [0u8, 0xc0];
    assert_eq!(
        parse_label_sequence(&buf, 1),
        Err(DnsError::IncompleteLabelSequence)
    );
}

#[test]
fn pointer_past_end_is_incomplete() {
    let buf = [0xc0u8, 0x10];
    assert_eq!(
        parse_label_sequence(&buf, 0),
        Err(DnsError::IncompleteLabelSequence)
    );
}

#[test]
fn pointer_loop_is_detected() {
    let buf = [0xc0u8, 0x00];
    assert_eq!(
        parse_label_sequence(&buf, 0),
        Err(DnsError::PointerLoopDetected)
    );
    let two = [1u8, b'a', 0xc0, 0x00];
    assert_eq!(
        parse_label_sequence(&two, 0),
        Err(DnsError::PointerLoopDetected)
    );
}

#[test]
fn query_reads_type_class_and_end() {
    let mut buf = example_com();
    buf.extend_from_slice(&[0x00, 0x01, 0x00, 0x01]);
    buf.extend_from_slice(&[0xc0, 0x00, 0x00, 0x1c, 0x00, 0x01]);
    let q = parse_query(&buf, 0).unwrap();
    assert_eq!(q.name, "example.com");
    assert_eq!(q.qname, example_com());
    assert_eq!(q.qtype, 1);
    assert_eq!(q.qclass, 1);
    assert_eq!(q.pos, 17);
    let q2 = parse_query(&buf, 17).unwrap();
    assert_eq!(q2.name, "example.com");
    assert_eq!(q2.qname, example_com());
    assert_eq!(q2.qtype, 28);
    assert_eq!(q2.qclass, 1);
    assert_eq!(q2.pos, 23);
}

#[test]
fn query_without_type_and_class_is_truncated() {
    let mut buf = example_com();
    buf.extend_from_slice(&[0x00, 0x01, 0x00]);
    assert!(matches!(parse_query(&buf, 0), Err(DnsError::TruncatedInput)));
    let mut bad = vec![5u8, b'a'];
    bad.extend_from_slice(&[0, 1, 0, 1]);
    assert!(matches!(
        parse_query(&bad, 0),
        Err(DnsError::IncompleteLabelSequence)
    ));
}
