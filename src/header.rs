use vstd::prelude::*;

use crate::error::DnsError;

verus! {

/// Size of the encoded header in bytes.
pub const HEADER_SIZE: usize = 12;

/// Masks of the flag word's sub-fields.
pub const QR_MASK: u16 = 0x8000;
pub const OPCODE_MASK: u16 = 0x7800;
pub const AA_MASK: u16 = 0x0400;
pub const TC_MASK: u16 = 0x0200;
pub const RD_MASK: u16 = 0x0100;
pub const RA_MASK: u16 = 0x0080;
pub const Z_MASK: u16 = 0x0070;
pub const RCODE_MASK: u16 = 0x000f;

/// The fixed DNS header, with the flag word held as named fields.
///
/// On the wire the flag word is laid out, from the high bit down, as
/// QR (1 bit), OPCODE (4), AA (1), TC (1), RD (1), RA (1), Z (3), RCODE (4).
#[derive(Debug, Clone, Copy, PartialEq, Eq, Structural)]
pub struct DnsHeader {
    pub id: u16,
    pub qr: bool,
    pub opcode: u8,
    pub aa: bool,
    pub tc: bool,
    pub rd: bool,
    pub ra: bool,
    pub z: u8,
    pub rcode: u8,
    pub qdcount: u16,
    pub ancount: u16,
    pub nscount: u16,
    pub arcount: u16,
}

/// A flag as a one-bit number.
pub open spec fn bit(b: bool) -> u16 {
    if b { 1u16 } else { 0u16 }
}

/// The 16-bit flag word packed from its sub-fields; each sub-field is cut to
/// its width, so no field reaches into another's bits.
pub open spec fn pack_flags(
    qr: bool, opcode: u8, aa: bool, tc: bool, rd: bool, ra: bool, z: u8, rcode: u8,
) -> u16 {
    ((bit(qr) << 15u16) as u16) | (((((opcode & 0xfu8) as u16) << 11u16) as u16)) | ((bit(aa)
        << 10u16) as u16) | ((bit(tc) << 9u16) as u16) | ((bit(rd) << 8u16) as u16) | ((bit(ra)
        << 7u16) as u16) | (((((z & 0x7u8) as u16) << 4u16) as u16)) | ((rcode & 0xfu8) as u16)
}

pub open spec fn flags_qr(f: u16) -> bool {
    f & QR_MASK != 0
}

pub open spec fn flags_opcode(f: u16) -> u8 {
    ((f & OPCODE_MASK) >> 11u16) as u8
}

pub open spec fn flags_aa(f: u16) -> bool {
    f & AA_MASK != 0
}

pub open spec fn flags_tc(f: u16) -> bool {
    f & TC_MASK != 0
}

pub open spec fn flags_rd(f: u16) -> bool {
    f & RD_MASK != 0
}

pub open spec fn flags_ra(f: u16) -> bool {
    f & RA_MASK != 0
}

pub open spec fn flags_z(f: u16) -> u8 {
    ((f & Z_MASK) >> 4u16) as u8
}

pub open spec fn flags_rcode(f: u16) -> u8 {
    (f & RCODE_MASK) as u8
}

/// Every field fits its width on the wire.
pub open spec fn fields_fit(opcode: u8, z: u8, rcode: u8) -> bool {
    opcode < 16 && z < 8 && rcode < 16
}

/// Splitting a packed flag word gives back the sub-fields it was packed from.
proof fn lemma_unpack_pack(
    qr: bool, opcode: u8, aa: bool, tc: bool, rd: bool, ra: bool, z: u8, rcode: u8,
)
    by (bit_vector)
    requires
        fields_fit(opcode, z, rcode),
    ensures
        flags_qr(pack_flags(qr, opcode, aa, tc, rd, ra, z, rcode)) == qr,
        flags_opcode(pack_flags(qr, opcode, aa, tc, rd, ra, z, rcode)) == opcode,
        flags_aa(pack_flags(qr, opcode, aa, tc, rd, ra, z, rcode)) == aa,
        flags_tc(pack_flags(qr, opcode, aa, tc, rd, ra, z, rcode)) == tc,
        flags_rd(pack_flags(qr, opcode, aa, tc, rd, ra, z, rcode)) == rd,
        flags_ra(pack_flags(qr, opcode, aa, tc, rd, ra, z, rcode)) == ra,
        flags_z(pack_flags(qr, opcode, aa, tc, rd, ra, z, rcode)) == z,
        flags_rcode(pack_flags(qr, opcode, aa, tc, rd, ra, z, rcode)) == rcode,
{
}

/// Every flag word splits into sub-fields that fit their widths.
pub proof fn lemma_unpacked_fit(f: u16)
    by (bit_vector)
    ensures
        fields_fit(flags_opcode(f), flags_z(f), flags_rcode(f)),
{
}

/// Replacing one sub-field leaves every bit outside its mask as it was.
proof fn lemma_pack_fields_apart(
    qr: bool, opcode: u8, aa: bool, tc: bool, rd: bool, ra: bool, z: u8, rcode: u8,
    qr2: bool, opcode2: u8, aa2: bool, tc2: bool, rd2: bool, ra2: bool, z2: u8, rcode2: u8,
)
    by (bit_vector)
    ensures
        pack_flags(qr2, opcode, aa, tc, rd, ra, z, rcode) & !QR_MASK
            == pack_flags(qr, opcode, aa, tc, rd, ra, z, rcode) & !QR_MASK,
        pack_flags(qr, opcode2, aa, tc, rd, ra, z, rcode) & !OPCODE_MASK
            == pack_flags(qr, opcode, aa, tc, rd, ra, z, rcode) & !OPCODE_MASK,
        pack_flags(qr, opcode, aa2, tc, rd, ra, z, rcode) & !AA_MASK
            == pack_flags(qr, opcode, aa, tc, rd, ra, z, rcode) & !AA_MASK,
        pack_flags(qr, opcode, aa, tc2, rd, ra, z, rcode) & !TC_MASK
            == pack_flags(qr, opcode, aa, tc, rd, ra, z, rcode) & !TC_MASK,
        pack_flags(qr, opcode, aa, tc, rd2, ra, z, rcode) & !RD_MASK
            == pack_flags(qr, opcode, aa, tc, rd, ra, z, rcode) & !RD_MASK,
        pack_flags(qr, opcode, aa, tc, rd, ra2, z, rcode) & !RA_MASK
            == pack_flags(qr, opcode, aa, tc, rd, ra, z, rcode) & !RA_MASK,
        pack_flags(qr, opcode, aa, tc, rd, ra, z2, rcode) & !Z_MASK
            == pack_flags(qr, opcode, aa, tc, rd, ra, z, rcode) & !Z_MASK,
        pack_flags(qr, opcode, aa, tc, rd, ra, z, rcode2) & !RCODE_MASK
            == pack_flags(qr, opcode, aa, tc, rd, ra, z, rcode) & !RCODE_MASK,
{
}

/// The two bytes of `x`, high byte first.
pub open spec fn be16(x: u16) -> Seq<u8> {
    seq![(x >> 8u16) as u8, (x & 0xffu16) as u8]
}

/// The big-endian 16-bit value at `s[i]`, `s[i + 1]`.
pub open spec fn read_be16(s: Seq<u8>, i: int) -> u16 {
    ((((s[i] as u16) << 8u16) as u16) | (s[i + 1] as u16)) as u16
}

/// Reading back the two bytes of a word gives the word.
proof fn lemma_be16_bytes(x: u16, hi: u8, lo: u8)
    by (bit_vector)
    requires
        hi == (x >> 8u16) as u8,
        lo == (x & 0xffu16) as u8,
    ensures
        ((((hi as u16) << 8u16) as u16) | (lo as u16)) as u16 == x,
{
}

impl DnsHeader {
    /// Every sub-field of the flag word fits its width.
    pub open spec fn wf(self) -> bool {
        fields_fit(self.opcode, self.z, self.rcode)
    }

    /// The flag word as it stands on the wire.
    pub open spec fn flags_word(self) -> u16 {
        pack_flags(self.qr, self.opcode, self.aa, self.tc, self.rd, self.ra, self.z, self.rcode)
    }
}

/// The header as it stands on the wire: six big-endian words.
pub open spec fn header_bytes(h: DnsHeader) -> Seq<u8> {
    be16(h.id) + be16(h.flags_word()) + be16(h.qdcount) + be16(h.ancount) + be16(h.nscount)
        + be16(h.arcount)
}

/// The header whose words are given, with the flag word split into its sub-fields.
pub open spec fn header_from_words(
    id: u16, flags: u16, qdcount: u16, ancount: u16, nscount: u16, arcount: u16,
) -> DnsHeader {
    DnsHeader {
        id,
        qr: flags_qr(flags),
        opcode: flags_opcode(flags),
        aa: flags_aa(flags),
        tc: flags_tc(flags),
        rd: flags_rd(flags),
        ra: flags_ra(flags),
        z: flags_z(flags),
        rcode: flags_rcode(flags),
        qdcount,
        ancount,
        nscount,
        arcount,
    }
}

/// The header that the first twelve bytes of `s` encode.
pub open spec fn header_of(s: Seq<u8>) -> DnsHeader {
    header_from_words(
        read_be16(s, 0),
        read_be16(s, 2),
        read_be16(s, 4),
        read_be16(s, 6),
        read_be16(s, 8),
        read_be16(s, 10),
    )
}

/// Decoding an encoded header gives back the header, for every header whose
/// sub-fields fit their widths.
pub proof fn lemma_header_round_trip(h: DnsHeader)
    requires
        h.wf(),
    ensures
        header_bytes(h).len() == HEADER_SIZE,
        header_of(header_bytes(h)) == h,
{
    let s = header_bytes(h);
    let f = h.flags_word();
    lemma_be16_bytes(h.id, s[0], s[1]);
    lemma_be16_bytes(f, s[2], s[3]);
    lemma_be16_bytes(h.qdcount, s[4], s[5]);
    lemma_be16_bytes(h.ancount, s[6], s[7]);
    lemma_be16_bytes(h.nscount, s[8], s[9]);
    lemma_be16_bytes(h.arcount, s[10], s[11]);
    lemma_unpack_pack(h.qr, h.opcode, h.aa, h.tc, h.rd, h.ra, h.z, h.rcode);
}

fn bit_of(b: bool) -> (r: u16)
    ensures
        r == bit(b),
{
    if b {
        1
    } else {
        0
    }
}

/// Appends the two bytes of `x`, high byte first.
pub fn push_u16_be(out: &mut Vec<u8>, x: u16)
    ensures
        final(out)@ == old(out)@ + be16(x),
{
    out.push((x >> 8u16) as u8);
    out.push((x & 0xffu16) as u8);
    assert(final(out)@ =~= old(out)@ + be16(x));
}

/// Reads the big-endian 16-bit value at `buf[i]`, `buf[i + 1]`.
pub fn read_u16_be(buf: &[u8], i: usize) -> (r: u16)
    requires
        i + 2 <= buf@.len(),
    ensures
        r == read_be16(buf@, i as int),
{
    (((buf[i] as u16) << 8u16) as u16) | (buf[i + 1] as u16)
}

/// Decodes the header held by the first twelve bytes of `buf`.
pub fn parse_header(buf: &[u8]) -> (r: Result<DnsHeader, DnsError>)
    ensures
        buf@.len() < HEADER_SIZE ==> r == Err::<DnsHeader, DnsError>(DnsError::TruncatedInput),
        buf@.len() >= HEADER_SIZE ==> r == Ok::<DnsHeader, DnsError>(header_of(buf@)),
        r matches Ok(h) ==> h.wf(),
{
    if buf.len() < HEADER_SIZE {
        return Err(DnsError::TruncatedInput);
    }
    let flags = read_u16_be(buf, 2);
    proof {
        lemma_unpacked_fit(flags);
    }
    Ok(
        DnsHeader {
            id: read_u16_be(buf, 0),
            qr: flags & QR_MASK != 0,
            opcode: ((flags & OPCODE_MASK) >> 11u16) as u8,
            aa: flags & AA_MASK != 0,
            tc: flags & TC_MASK != 0,
            rd: flags & RD_MASK != 0,
            ra: flags & RA_MASK != 0,
            z: ((flags & Z_MASK) >> 4u16) as u8,
            rcode: (flags & RCODE_MASK) as u8,
            qdcount: read_u16_be(buf, 4),
            ancount: read_u16_be(buf, 6),
            nscount: read_u16_be(buf, 8),
            arcount: read_u16_be(buf, 10),
        },
    )
}

impl DnsHeader {
    /// A header with the given ID, every flag clear and every count zero.
    pub fn new(id: u16) -> (h: DnsHeader)
        ensures
            h == (DnsHeader {
                id,
                qr: false,
                opcode: 0,
                aa: false,
                tc: false,
                rd: false,
                ra: false,
                z: 0,
                rcode: 0,
                qdcount: 0,
                ancount: 0,
                nscount: 0,
                arcount: 0,
            }),
            h.wf(),
    {
        DnsHeader {
            id,
            qr: false,
            opcode: 0,
            aa: false,
            tc: false,
            rd: false,
            ra: false,
            z: 0,
            rcode: 0,
            qdcount: 0,
            ancount: 0,
            nscount: 0,
            arcount: 0,
        }
    }

    /// The flag word as it stands on the wire.
    pub fn flags(&self) -> (f: u16)
        ensures
            f == self.flags_word(),
    {
        let qr = (bit_of(self.qr) << 15u16) as u16;
        let opcode = (((self.opcode & 0xfu8) as u16) << 11u16) as u16;
        let aa = (bit_of(self.aa) << 10u16) as u16;
        let tc = (bit_of(self.tc) << 9u16) as u16;
        let rd = (bit_of(self.rd) << 8u16) as u16;
        let ra = (bit_of(self.ra) << 7u16) as u16;
        let z = (((self.z & 0x7u8) as u16) << 4u16) as u16;
        let rcode = (self.rcode & 0xfu8) as u16;
        qr | opcode | aa | tc | rd | ra | z | rcode
    }

    /// The twelve bytes of the header, big-endian.
    pub fn to_bytes(&self) -> (bytes: Vec<u8>)
        ensures
            bytes@ == header_bytes(*self),
            bytes@.len() == HEADER_SIZE,
    {
        let mut bytes: Vec<u8> = Vec::new();
        push_u16_be(&mut bytes, self.id);
        push_u16_be(&mut bytes, self.flags());
        push_u16_be(&mut bytes, self.qdcount);
        push_u16_be(&mut bytes, self.ancount);
        push_u16_be(&mut bytes, self.nscount);
        push_u16_be(&mut bytes, self.arcount);
        assert(bytes@ =~= header_bytes(*self));
        bytes
    }
}

impl DnsHeader {
    /// Sets the query/response bit; no other field and no other bit of the flag word changes.
    pub fn set_qr(&mut self, qr: bool)
        ensures
            *final(self) == (DnsHeader { qr, ..*old(self) }),
            final(self).flags_word() & !QR_MASK == old(self).flags_word() & !QR_MASK,
    {
        self.qr = qr;
        proof {
            lemma_pack_fields_apart(
                old(self).qr, old(self).opcode, old(self).aa, old(self).tc, old(self).rd, old(self).ra, old(self).z, old(self).rcode,
                qr, old(self).opcode, old(self).aa, old(self).tc, old(self).rd, old(self).ra, old(self).z, old(self).rcode,
            );
        }
    }

    /// Sets the four-bit operation code; no other field and no other bit of the flag word changes.
    pub fn set_opcode(&mut self, opcode: u8)
        requires
            opcode < 16,
        ensures
            *final(self) == (DnsHeader { opcode, ..*old(self) }),
            final(self).flags_word() & !OPCODE_MASK == old(self).flags_word() & !OPCODE_MASK,
    {
        self.opcode = opcode;
        proof {
            lemma_pack_fields_apart(
                old(self).qr, old(self).opcode, old(self).aa, old(self).tc, old(self).rd, old(self).ra, old(self).z, old(self).rcode,
                old(self).qr, opcode, old(self).aa, old(self).tc, old(self).rd, old(self).ra, old(self).z, old(self).rcode,
            );
        }
    }

    /// Sets the authoritative-answer bit; no other field and no other bit of the flag word changes.
    pub fn set_aa(&mut self, aa: bool)
        ensures
            *final(self) == (DnsHeader { aa, ..*old(self) }),
            final(self).flags_word() & !AA_MASK == old(self).flags_word() & !AA_MASK,
    {
        self.aa = aa;
        proof {
            lemma_pack_fields_apart(
                old(self).qr, old(self).opcode, old(self).aa, old(self).tc, old(self).rd, old(self).ra, old(self).z, old(self).rcode,
                old(self).qr, old(self).opcode, aa, old(self).tc, old(self).rd, old(self).ra, old(self).z, old(self).rcode,
            );
        }
    }

    /// Sets the truncation bit; no other field and no other bit of the flag word changes.
    pub fn set_tc(&mut self, tc: bool)
        ensures
            *final(self) == (DnsHeader { tc, ..*old(self) }),
            final(self).flags_word() & !TC_MASK == old(self).flags_word() & !TC_MASK,
    {
        self.tc = tc;
        proof {
            lemma_pack_fields_apart(
                old(self).qr, old(self).opcode, old(self).aa, old(self).tc, old(self).rd, old(self).ra, old(self).z, old(self).rcode,
                old(self).qr, old(self).opcode, old(self).aa, tc, old(self).rd, old(self).ra, old(self).z, old(self).rcode,
            );
        }
    }

    /// Sets the recursion-desired bit; no other field and no other bit of the flag word changes.
    pub fn set_rd(&mut self, rd: bool)
        ensures
            *final(self) == (DnsHeader { rd, ..*old(self) }),
            final(self).flags_word() & !RD_MASK == old(self).flags_word() & !RD_MASK,
    {
        self.rd = rd;
        proof {
            lemma_pack_fields_apart(
                old(self).qr, old(self).opcode, old(self).aa, old(self).tc, old(self).rd, old(self).ra, old(self).z, old(self).rcode,
                old(self).qr, old(self).opcode, old(self).aa, old(self).tc, rd, old(self).ra, old(self).z, old(self).rcode,
            );
        }
    }

    /// Sets the recursion-available bit; no other field and no other bit of the flag word changes.
    pub fn set_ra(&mut self, ra: bool)
        ensures
            *final(self) == (DnsHeader { ra, ..*old(self) }),
            final(self).flags_word() & !RA_MASK == old(self).flags_word() & !RA_MASK,
    {
        self.ra = ra;
        proof {
            lemma_pack_fields_apart(
                old(self).qr, old(self).opcode, old(self).aa, old(self).tc, old(self).rd, old(self).ra, old(self).z, old(self).rcode,
                old(self).qr, old(self).opcode, old(self).aa, old(self).tc, old(self).rd, ra, old(self).z, old(self).rcode,
            );
        }
    }

    /// Sets the three reserved bits; no other field and no other bit of the flag word changes.
    pub fn set_z(&mut self, z: u8)
        requires
            z < 8,
        ensures
            *final(self) == (DnsHeader { z, ..*old(self) }),
            final(self).flags_word() & !Z_MASK == old(self).flags_word() & !Z_MASK,
    {
        self.z = z;
        proof {
            lemma_pack_fields_apart(
                old(self).qr, old(self).opcode, old(self).aa, old(self).tc, old(self).rd, old(self).ra, old(self).z, old(self).rcode,
                old(self).qr, old(self).opcode, old(self).aa, old(self).tc, old(self).rd, old(self).ra, z, old(self).rcode,
            );
        }
    }

    /// Sets the four-bit response code; no other field and no other bit of the flag word changes.
    pub fn set_rcode(&mut self, rcode: u8)
        requires
            rcode < 16,
        ensures
            *final(self) == (DnsHeader { rcode, ..*old(self) }),
            final(self).flags_word() & !RCODE_MASK == old(self).flags_word() & !RCODE_MASK,
    {
        self.rcode = rcode;
        proof {
            lemma_pack_fields_apart(
                old(self).qr, old(self).opcode, old(self).aa, old(self).tc, old(self).rd, old(self).ra, old(self).z, old(self).rcode,
                old(self).qr, old(self).opcode, old(self).aa, old(self).tc, old(self).rd, old(self).ra, old(self).z, rcode,
            );
        }
    }
}

impl DnsHeader {
    /// Sets the number of questions.
    pub fn set_qdcount(&mut self, count: u16)
        ensures
            *final(self) == (DnsHeader { qdcount: count, ..*old(self) }),
    {
        self.qdcount = count;
    }

    /// Sets the number of answers.
    pub fn set_ancount(&mut self, count: u16)
        ensures
            *final(self) == (DnsHeader { ancount: count, ..*old(self) }),
    {
        self.ancount = count;
    }

    /// Sets the number of authority records.
    pub fn set_nscount(&mut self, count: u16)
        ensures
            *final(self) == (DnsHeader { nscount: count, ..*old(self) }),
    {
        self.nscount = count;
    }

    /// Sets the number of additional records.
    pub fn set_arcount(&mut self, count: u16)
        ensures
            *final(self) == (DnsHeader { arcount: count, ..*old(self) }),
    {
        self.arcount = count;
    }

    pub fn get_id(&self) -> (r: u16)
        ensures
            r == self.id,
    {
        self.id
    }

    pub fn get_qr(&self) -> (r: bool)
        ensures
            r == self.qr,
    {
        self.qr
    }

    pub fn get_opcode(&self) -> (r: u8)
        ensures
            r == self.opcode,
    {
        self.opcode
    }

    pub fn get_aa(&self) -> (r: bool)
        ensures
            r == self.aa,
    {
        self.aa
    }

    pub fn get_tc(&self) -> (r: bool)
        ensures
            r == self.tc,
    {
        self.tc
    }

    pub fn get_rd(&self) -> (r: bool)
        ensures
            r == self.rd,
    {
        self.rd
    }

    pub fn get_ra(&self) -> (r: bool)
        ensures
            r == self.ra,
    {
        self.ra
    }

    pub fn get_z(&self) -> (r: u8)
        ensures
            r == self.z,
    {
        self.z
    }

    pub fn get_rcode(&self) -> (r: u8)
        ensures
            r == self.rcode,
    {
        self.rcode
    }

    pub fn get_qdcount(&self) -> (r: u16)
        ensures
            r == self.qdcount,
    {
        self.qdcount
    }

    pub fn get_ancount(&self) -> (r: u16)
        ensures
            r == self.ancount,
    {
        self.ancount
    }

    pub fn get_nscount(&self) -> (r: u16)
        ensures
            r == self.nscount,
    {
        self.nscount
    }

    pub fn get_arcount(&self) -> (r: u16)
        ensures
            r == self.arcount,
    {
        self.arcount
    }
}

} // verus!
