use dns_codec::{parse_header, DnsError, DnsHeader, HEADER_SIZE};

fn sample_header() -> DnsHeader {
    let mut h = DnsHeader::new(0xbeef);
    h.set_qr(true);
    h.set_opcode(5);
    h.set_aa(true);
    h.set_tc(false);
    h.set_rd(true);
    h.set_ra(true);
    h.set_z(3);
    h.set_rcode(9);
    h.set_qdcount(1);
    h.set_ancount(2);
    h.set_nscount(3);
    h.set_arcount(0xffff);
    h
}

#[test]
fn header_encodes_to_twelve_big_endian_bytes() {
    let bytes = sample_header().to_bytes();
    assert_eq!(bytes.len(), HEADER_SIZE);
    // QR=1, OPCODE=0101, AA=1, TC=0, RD=1 | RA=1, Z=011, RCODE=1001
    assert_eq!(
        bytes,
        vec![0xbe, 0xef, 0xad, 0xb9, 0x00, 0x01, 0x00, 0x02, 0x00, 0x03, 0xff, 0xff]
    );
}

#[test]
fn header_round_trip() {
    let h = sample_header();
    let decoded = parse_header(&h.to_bytes()).unwrap();
    assert_eq!(decoded, h);

    let zero = DnsHeader::new(0);
    assert_eq!(parse_header(&zero.to_bytes()).unwrap(), zero);
}

#[test]
fn header_decode_reads_fields() {
    let bytes = [0x04, 0xd2, 0x01, 0x00, 0x00, 0x01, 0x00, 0x00, 0x00, 0x00, 0x00, 0x00];
    let h = parse_header(&bytes).unwrap();
    assert_eq!(h.get_id(), 1234);
    assert_eq!(h.get_opcode(), 0);
    assert!(h.get_rd());
    assert!(!h.get_qr());
    assert_eq!(h.get_qdcount(), 1);
    assert_eq!(h.get_ancount(), 0);
    assert_eq!(h.flags(), 0x0100);
}

#[test]
fn header_decode_truncated() {
    let bytes = [0u8; 10];
    assert_eq!(parse_header(&bytes), Err(DnsError::TruncatedInput));
    assert_eq!(parse_header(&[]), Err(DnsError::TruncatedInput));
    assert_eq!(parse_header(&[0u8; 11]), Err(DnsError::TruncatedInput));
    assert!(parse_header(&[0u8; 12]).is_ok());
}

#[test]
fn setting_rcode_keeps_qr() {
    let mut h = DnsHeader::new(7);
    h.set_qr(true);
    h.set_rcode(4);
    assert!(h.get_qr());
    assert_eq!(h.get_rcode(), 4);
    assert_eq!(h.flags(), 0x8004);
}

#[test]
fn flag_setters_leave_other_bits() {
    let mut h = sample_header();
    let before = h.flags();
    h.set_opcode(0);
    assert_eq!(h.flags() & !0x7800, before & !0x7800);
    assert_eq!(h.get_opcode(), 0);
    h.set_z(0);
    assert_eq!(h.flags(), before & !0x7800 & !0x0070);
    h.set_qr(false);
    assert_eq!(h.get_rcode(), 9);
    assert!(h.get_aa());
    assert!(h.get_rd());
    assert!(h.get_ra());
    assert!(!h.get_tc());
    assert_eq!(h.get_id(), 0xbeef);
    assert_eq!(h.get_nscount(), 3);
    assert_eq!(h.get_arcount(), 0xffff);
    assert_eq!(h.get_z(), 0);
    h.set_tc(true);
    assert_eq!(h.flags() & 0x0200, 0x0200);
}
