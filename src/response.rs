use vstd::prelude::*;

use crate::error::DnsError;
use crate::header::{
    be16, header_bytes, header_of, lemma_header_round_trip, lemma_unpacked_fit, parse_header,
    push_u16_be, read_be16, DnsHeader, HEADER_SIZE,
};
use crate::query::{parse_query, question_at};

verus! {

/// Record type of a synthesized answer: a host address.
pub const TYPE_A: u16 = 1;

/// Record class of a synthesized answer: the internet.
pub const CLASS_IN: u16 = 1;

/// Time to live, in seconds, of a synthesized answer.
pub const ANSWER_TTL: u32 = 60;

/// Length of an answer's data: one IPv4 address.
pub const ADDRESS_LEN: u16 = 4;

/// The address that locally synthesized answers carry (8.8.8.8).
pub const PLACEHOLDER_ADDRESS: u32 = 0x0808_0808;

/// Response code of a successful answer.
pub const RCODE_NO_ERROR: u8 = 0;

/// Response code for an operation that is not implemented.
pub const RCODE_NOT_IMPLEMENTED: u8 = 4;

/// The four bytes of `x`, high byte first.
pub open spec fn be32(x: u32) -> Seq<u8> {
    seq![(x >> 24u32) as u8, ((x >> 16u32) & 0xffu32) as u8, ((x >> 8u32) & 0xffu32) as u8, (x
        & 0xffu32) as u8]
}

/// Appends the four bytes of `x`, high byte first.
pub fn push_u32_be(out: &mut Vec<u8>, x: u32)
    ensures
        final(out)@ == old(out)@ + be32(x),
{
    out.push((x >> 24u32) as u8);
    out.push(((x >> 16u32) & 0xffu32) as u8);
    out.push(((x >> 8u32) & 0xffu32) as u8);
    out.push((x & 0xffu32) as u8);
    assert(final(out)@ =~= old(out)@ + be32(x));
}

/// The header of the response to a request whose header is `req`.
pub open spec fn reply_header(req: DnsHeader) -> DnsHeader {
    DnsHeader {
        id: req.id,
        qr: true,
        opcode: req.opcode,
        aa: false,
        tc: false,
        rd: req.rd,
        ra: false,
        z: 0,
        rcode: if req.opcode == 0 {
            RCODE_NO_ERROR
        } else {
            RCODE_NOT_IMPLEMENTED
        },
        qdcount: req.qdcount,
        ancount: req.qdcount,
        nscount: 0,
        arcount: 0,
    }
}

/// Builds the header of the response to a request whose header is `req`.
pub fn response_header(req: &DnsHeader) -> (h: DnsHeader)
    requires
        req.wf(),
    ensures
        h == reply_header(*req),
        h.wf(),
{
    let mut h = DnsHeader::new(req.id);
    h.set_qr(true);
    h.set_opcode(req.opcode);
    h.set_aa(false);
    h.set_tc(false);
    h.set_rd(req.rd);
    h.set_ra(false);
    h.set_z(0);
    let rcode = if req.opcode == 0 {
        RCODE_NO_ERROR
    } else {
        RCODE_NOT_IMPLEMENTED
    };
    h.set_rcode(rcode);
    h.set_qdcount(req.qdcount);
    h.set_ancount(req.qdcount);
    h.set_nscount(0);
    h.set_arcount(0);
    h
}

/// The raw names of at most `count` questions read from `offset` on, stopping
/// early where the buffer ends.
pub open spec fn questions_from(buf: Seq<u8>, offset: int, count: nat) -> Result<
    Seq<Seq<u8>>,
    DnsError,
>
    decreases count,
{
    if count == 0 || offset >= buf.len() {
        Ok(seq![])
    } else {
        match question_at(buf, offset) {
            Err(e) => Err(e),
            Ok(q) => match questions_from(buf, q.pos, (count - 1) as nat) {
                Ok(rest) => Ok(seq![q.qname] + rest),
                Err(e) => Err(e),
            },
        }
    }
}

/// `r` with `names` put in front of the names it holds.
pub open spec fn names_then(names: Seq<Seq<u8>>, r: Result<Seq<Seq<u8>>, DnsError>) -> Result<
    Seq<Seq<u8>>,
    DnsError,
> {
    match r {
        Ok(rest) => Ok(names + rest),
        Err(e) => Err(e),
    }
}

/// A question echoed into the response: the name, type A, class IN.
pub open spec fn question_entry(qname: Seq<u8>) -> Seq<u8> {
    qname + be16(TYPE_A) + be16(CLASS_IN)
}

/// A synthesized answer: the name, type A, class IN, the TTL, the data length
/// and the address.
pub open spec fn answer_entry(qname: Seq<u8>, address: u32) -> Seq<u8> {
    qname + be16(TYPE_A) + be16(CLASS_IN) + be32(ANSWER_TTL) + be16(ADDRESS_LEN) + be32(address)
}

/// The question section: one echoed question per name, in order.
pub open spec fn question_section(names: Seq<Seq<u8>>) -> Seq<u8>
    decreases names.len(),
{
    if names.len() == 0 {
        seq![]
    } else {
        question_section(names.drop_last()) + question_entry(names.last())
    }
}

/// The answer section: one synthesized answer per name, in order.
pub open spec fn answer_section(names: Seq<Seq<u8>>, address: u32) -> Seq<u8>
    decreases names.len(),
{
    if names.len() == 0 {
        seq![]
    } else {
        answer_section(names.drop_last(), address) + answer_entry(names.last(), address)
    }
}

/// The response to the request `buf`, answering each question with `address`.
pub open spec fn response_to(buf: Seq<u8>, address: u32) -> Result<Seq<u8>, DnsError> {
    if buf.len() < HEADER_SIZE {
        Err(DnsError::TruncatedInput)
    } else {
        let req = header_of(buf);
        match questions_from(buf, HEADER_SIZE as int, req.qdcount as nat) {
            Ok(names) => Ok(
                header_bytes(reply_header(req)) + question_section(names) + answer_section(
                    names,
                    address,
                ),
            ),
            Err(e) => Err(e),
        }
    }
}

/// The result of building a response, held against `response_to`.
pub open spec fn reply_as(r: Result<Vec<u8>, DnsError>, m: Result<Seq<u8>, DnsError>) -> bool {
    match m {
        Ok(bytes) => match r {
            Ok(v) => v@ == bytes,
            Err(_) => false,
        },
        Err(e) => r == Err::<Vec<u8>, DnsError>(e),
    }
}

/// Putting `names.push(x)` in front is putting `names`, then `x`, in front.
proof fn lemma_names_then_push(names: Seq<Seq<u8>>, x: Seq<u8>, r: Result<Seq<Seq<u8>>, DnsError>)
    ensures
        names_then(names.push(x), r) == names_then(names, names_then(seq![x], r)),
{
    match r {
        Ok(rest) => {
            assert(names.push(x) + rest =~= names + (seq![x] + rest));
        },
        Err(_) => {},
    }
}

/// Builds the response to the request held by the first `size` bytes of
/// `buf`, answering each question with `address`.
pub fn build_response(buf: &[u8], size: usize, address: u32) -> (r: Result<Vec<u8>, DnsError>)
    requires
        size <= buf@.len(),
    ensures
        reply_as(r, response_to(buf@.take(size as int), address)),
{
    let msg = &buf[0..size];
    assert(msg@ =~= buf@.take(size as int));
    let req = match parse_header(msg) {
        Ok(h) => h,
        Err(e) => {
            return Err(e);
        },
    };
    let reply = response_header(&req);
    let mut packet = reply.to_bytes();
    let mut ans: Vec<u8> = Vec::new();
    let mut offset: usize = HEADER_SIZE;
    let mut parsed: u16 = 0;
    let ghost mut names: Seq<Seq<u8>> = seq![];
    assert(names_then(names, questions_from(msg@, offset as int, req.qdcount as nat))
        == questions_from(msg@, offset as int, req.qdcount as nat)) by {
        match questions_from(msg@, offset as int, req.qdcount as nat) {
            Ok(rest) => {
                assert(names + rest =~= rest);
            },
            Err(_) => {},
        }
    }
    while offset < msg.len() && parsed < req.qdcount
        invariant
            msg@ == buf@.take(size as int),
            msg@.len() >= HEADER_SIZE,
            req == header_of(msg@),
            reply == reply_header(req),
            parsed <= req.qdcount,
            packet@ == header_bytes(reply) + question_section(names),
            ans@ == answer_section(names, address),
            names_then(names, questions_from(msg@, offset as int, (req.qdcount - parsed) as nat))
                == questions_from(msg@, HEADER_SIZE as int, req.qdcount as nat),
        decreases req.qdcount - parsed,
    {
        let q = match parse_query(msg, offset) {
            Ok(q) => q,
            Err(e) => {
                assert(questions_from(msg@, offset as int, (req.qdcount - parsed) as nat) == Err::<
                    Seq<Seq<u8>>,
                    DnsError,
                >(e));
                return Err(e);
            },
        };
        let ghost before = names;
        let ghost old_packet = packet@;
        let ghost old_ans = ans@;
        packet.extend_from_slice(q.qname.as_slice());
        push_u16_be(&mut packet, TYPE_A);
        push_u16_be(&mut packet, CLASS_IN);
        ans.extend_from_slice(q.qname.as_slice());
        push_u16_be(&mut ans, TYPE_A);
        push_u16_be(&mut ans, CLASS_IN);
        push_u32_be(&mut ans, ANSWER_TTL);
        push_u16_be(&mut ans, ADDRESS_LEN);
        push_u32_be(&mut ans, address);
        proof {
            names = names.push(q.qname@);
            assert(names.drop_last() =~= before);
            assert(packet@ =~= old_packet + question_entry(q.qname@));
            assert(ans@ =~= old_ans + answer_entry(q.qname@, address));
            lemma_names_then_push(
                before,
                q.qname@,
                questions_from(msg@, q.pos as int, (req.qdcount - parsed - 1) as nat),
            );
        }
        offset = q.pos;
        parsed = parsed + 1;
    }
    proof {
        let rest = questions_from(msg@, offset as int, (req.qdcount - parsed) as nat);
        assert(rest == Ok::<Seq<Seq<u8>>, DnsError>(seq![]));
        assert(names + seq![] =~= names);
    }
    let ghost old_packet = packet@;
    packet.append(&mut ans);
    assert(packet@ =~= old_packet + answer_section(names, address));
    Ok(packet)
}

/// Builds the response to the request held by the first `size` bytes of
/// `buf`, answering each question with the placeholder address.
pub fn resolve_local(buf: &[u8], size: usize) -> (r: Result<Vec<u8>, DnsError>)
    requires
        size <= buf@.len(),
    ensures
        reply_as(r, response_to(buf@.take(size as int), PLACEHOLDER_ADDRESS)),
{
    build_response(buf, size, PLACEHOLDER_ADDRESS)
}

/// Chooses the reply to a request: a forwarded response is passed on
/// unchanged when it is longer than a header; otherwise the response is built
/// locally with the placeholder address.
pub fn choose_reply(forwarded: Option<Vec<u8>>, buf: &[u8], size: usize) -> (r: Result<
    Vec<u8>,
    DnsError,
>)
    requires
        size <= buf@.len(),
    ensures
        forwarded matches Some(p) && p@.len() > HEADER_SIZE ==> r == Ok::<Vec<u8>, DnsError>(
            forwarded->Some_0,
        ),
        !(forwarded matches Some(p) && p@.len() > HEADER_SIZE) ==> reply_as(
            r,
            response_to(buf@.take(size as int), PLACEHOLDER_ADDRESS),
        ),
{
    match forwarded {
        Some(p) => {
            if p.len() > HEADER_SIZE {
                Ok(p)
            } else {
                resolve_local(buf, size)
            }
        },
        None => resolve_local(buf, size),
    }
}

/// The header decoded from a response is the reply header of the request;
/// in particular a request whose operation code is not zero is answered with
/// response code 4 (not implemented), and every other header field follows the
/// request as the reply header says.
pub proof fn lemma_unimplemented_opcode(buf: Seq<u8>, address: u32)
    requires
        buf.len() >= HEADER_SIZE,
        header_of(buf).opcode != 0,
        response_to(buf, address) is Ok,
    ensures
        header_of(response_to(buf, address)->Ok_0) == reply_header(header_of(buf)),
        header_of(response_to(buf, address)->Ok_0).rcode == RCODE_NOT_IMPLEMENTED,
        header_of(response_to(buf, address)->Ok_0).opcode == header_of(buf).opcode,
{
    let req = header_of(buf);
    let names = questions_from(buf, HEADER_SIZE as int, req.qdcount as nat)->Ok_0;
    let hb = header_bytes(reply_header(req));
    let resp = response_to(buf, address)->Ok_0;
    lemma_unpacked_fit(read_be16(buf, 2));
    lemma_header_round_trip(reply_header(req));
    assert(resp == hb + (question_section(names) + answer_section(names, address)));
    assert(forall|i: int| 0 <= i < HEADER_SIZE ==> resp[i] == hb[i]);
    assert(header_of(resp) == header_of(hb));
}

} // verus!
