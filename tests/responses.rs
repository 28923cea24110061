use dns_codec::{build_response, choose_reply, parse_header, resolve_local, DnsError};

fn question(labels: &[&str], qtype: u16) -> Vec<u8> {
    let mut v = Vec::new();
    for l in labels {
        v.push(l.len() as u8);
        v.extend_from_slice(l.as_bytes());
    }
    v.push(0);
    v.extend_from_slice(&qtype.to_be_bytes());
    v.extend_from_slice(&1u16.to_be_bytes());
    v
}

fn request(id: u16, flags: u16, qdcount: u16, questions: &[Vec<u8>]) -> Vec<u8> {
    let mut v = Vec::new();
    v.extend_from_slice(&id.to_be_bytes());
    v.extend_from_slice(&flags.to_be_bytes());
    v.extend_from_slice(&qdcount.to_be_bytes());
    v.extend_from_slice(&[0, 0, 0, 0, 0, 0]);
    for q in questions {
        v.extend_from_slice(q);
    }
    v
}

fn raw_name(labels: &[&str]) -> Vec<u8> {
    let q = question(labels, 1);
    q[..q.len() - 4].to_vec()
}

fn answer(name: &[u8]) -> Vec<u8> {
    let mut v = name.to_vec();
    v.extend_from_slice(&[0, 1, 0, 1, 0, 0, 0, 60, 0, 4, 8, 8, 8, 8]);
    v
}

#[test]
fn end_to_end_single_question() {
    let req = request(1234, 0x0100, 1, &[question(&["example", "com"], 1)]);
    let resp = resolve_local(&req, req.len()).unwrap();
    let h = parse_header(&resp).unwrap();
    assert_eq!(h.get_id(), 1234);
    assert!(h.get_qr());
    assert_eq!(h.get_opcode(), 0);
    assert_eq!(h.get_rcode(), 0);
    assert!(h.get_rd());
    assert!(!h.get_aa());
    assert!(!h.get_tc());
    assert!(!h.get_ra());
    assert_eq!(h.get_z(), 0);
    assert_eq!(h.get_qdcount(), 1);
    assert_eq!(h.get_ancount(), 1);
    assert_eq!(h.get_nscount(), 0);
    assert_eq!(h.get_arcount(), 0);

    let name = raw_name(&["example", "com"]);
    let mut expected = vec![0x04, 0xd2, 0x81, 0x00, 0, 1, 0, 1, 0, 0, 0, 0];
    expected.extend_from_slice(&name);
    expected.extend_from_slice(&[0, 1, 0, 1]);
    expected.extend_from_slice(&answer(&name));
    assert_eq!(resp, expected);
    // TTL 60, data length 4, a four-byte address
    let tail = &resp[resp.len() - 10..];
    assert_eq!(tail, &[0, 0, 0, 60, 0, 4, 8, 8, 8, 8]);
}

#[test]
fn multi_question_answers_in_order() {
    let q1 = question(&["example", "com"], 1);
    let q2 = question(&["rust-lang", "org"], 1);
    let req = request(7, 0x0100, 2, &[q1, q2]);
    let resp = resolve_local(&req, req.len()).unwrap();
    let h = parse_header(&resp).unwrap();
    assert_eq!(h.get_qdcount(), 2);
    assert_eq!(h.get_ancount(), 2);

    let n1 = raw_name(&["example", "com"]);
    let n2 = raw_name(&["rust-lang", "org"]);
    let mut expected = resp[..12].to_vec();
    expected.extend_from_slice(&n1);
    expected.extend_from_slice(&[0, 1, 0, 1]);
    expected.extend_from_slice(&n2);
    expected.extend_from_slice(&[0, 1, 0, 1]);
    expected.extend_from_slice(&answer(&n1));
    expected.extend_from_slice(&answer(&n2));
    assert_eq!(resp, expected);
}

#[test]
fn compressed_second_question_is_expanded() {
    let q1 = question(&["example", "com"], 1);
    let q2 = vec![0xc0, 12, 0, 28, 0, 1];
    let req = request(9, 0, 2, &[q1, q2]);
    let resp = resolve_local(&req, req.len()).unwrap();
    let n = raw_name(&["example", "com"]);
    let mut expected = resp[..12].to_vec();
    for _ in 0..2 {
        expected.extend_from_slice(&n);
        expected.extend_from_slice(&[0, 1, 0, 1]);
    }
    expected.extend_from_slice(&answer(&n));
    expected.extend_from_slice(&answer(&n));
    assert_eq!(resp, expected);
}

#[test]
fn unimplemented_opcode_sets_rcode_four() {
    // OPCODE=2, RD=0, AA=1 and RA=1 in the request
    let flags: u16 = (2 << 11) | 0x0400 | 0x0080;
    let req = request(42, flags, 1, &[question(&["a", "b"], 1)]);
    let resp = resolve_local(&req, req.len()).unwrap();
    let h = parse_header(&resp).unwrap();
    assert_eq!(h.get_rcode(), 4);
    assert_eq!(h.get_opcode(), 2);
    assert_eq!(h.get_id(), 42);
    assert!(h.get_qr());
    assert!(!h.get_rd());
    assert!(!h.get_aa());
    assert!(!h.get_ra());
    assert_eq!(h.get_qdcount(), 1);
    assert_eq!(h.get_ancount(), 1);
}

#[test]
fn response_to_short_request_is_truncated() {
    let req = [0u8; 10];
    assert_eq!(resolve_local(&req, 10), Err(DnsError::TruncatedInput));
    let full = request(1, 0, 1, &[question(&["a"], 1)]);
    assert_eq!(resolve_local(&full, 11), Err(DnsError::TruncatedInput));
}

#[test]
fn response_stops_at_received_length() {
    let q = question(&["example", "com"], 1);
    let mut buf = request(5, 0, 3, &[q.clone()]);
    let size = buf.len();
    buf.extend_from_slice(&[0xaa; 20]);
    let resp = resolve_local(&buf, size).unwrap();
    let h = parse_header(&resp).unwrap();
    assert_eq!(h.get_qdcount(), 3);
    assert_eq!(h.get_ancount(), 3);
    let n = raw_name(&["example", "com"]);
    assert_eq!(resp.len(), 12 + n.len() + 4 + n.len() + 14);
}

#[test]
fn response_stops_at_question_count() {
    let q = question(&["example", "com"], 1);
    let req = request(5, 0, 1, &[q.clone(), q]);
    let resp = resolve_local(&req, req.len()).unwrap();
    let n = raw_name(&["example", "com"]);
    assert_eq!(resp.len(), 12 + n.len() + 4 + n.len() + 14);
}

#[test]
fn bad_question_aborts_response() {
    let mut req = request(5, 0, 1, &[]);
    req.extend_from_slice(&[7, b'e', b'x']);
    assert_eq!(
        resolve_local(&req, req.len()),
        Err(DnsError::IncompleteLabelSequence)
    );
    let mut short = request(5, 0, 1, &[]);
    short.extend_from_slice(&[1, b'a', 0, 0, 1]);
    assert_eq!(
        resolve_local(&short, short.len()),
        Err(DnsError::TruncatedInput)
    );
}

#[test]
fn custom_address_in_answer() {
    let req = request(3, 0, 1, &[question(&["x"], 1)]);
    let resp = build_response(&req, req.len(), 0x7f00_0001).unwrap();
    assert_eq!(&resp[resp.len() - 4..], &[127, 0, 0, 1]);
}

#[test]
fn forwarded_reply_passes_through() {
    let req = request(3, 0, 1, &[question(&["x"], 1)]);
    let forwarded = vec![1u8; 13];
    assert_eq!(
        choose_reply(Some(forwarded.clone()), &req, req.len()),
        Ok(forwarded)
    );
    let local = resolve_local(&req, req.len()).unwrap();
    assert_eq!(choose_reply(Some(vec![1u8; 12]), &req, req.len()), Ok(local.clone()));
    assert_eq!(choose_reply(None, &req, req.len()), Ok(local));
}
