use vstd::prelude::*;

use crate::error::DnsError;
use crate::header::{read_be16, read_u16_be};
use crate::name::{decode_name, dotted, parse_label_sequence, MAX_POINTER_HOPS};

verus! {

/// One entry of the question section.
#[derive(Debug)]
pub struct DnsQuery {
    /// The name's raw label encoding, with every pointer expanded.
    pub qname: Vec<u8>,
    /// The name's labels joined by dots.
    pub name: String,
    pub qtype: u16,
    pub qclass: u16,
    /// The offset just after this question's bytes.
    pub pos: usize,
}

/// What a question holds, as plain values.
pub struct QuestionModel {
    pub qname: Seq<u8>,
    pub name: Seq<char>,
    pub qtype: u16,
    pub qclass: u16,
    pub pos: int,
}

impl View for DnsQuery {
    type V = QuestionModel;

    open spec fn view(&self) -> QuestionModel {
        QuestionModel {
            qname: self.qname@,
            name: self.name@,
            qtype: self.qtype,
            qclass: self.qclass,
            pos: self.pos as int,
        }
    }
}

/// The question at `pos` of `buf`: a name, then the type and class words
/// that follow the name's own bytes.
pub open spec fn question_at(buf: Seq<u8>, pos: int) -> Result<QuestionModel, DnsError> {
    match decode_name(buf, pos, MAX_POINTER_HOPS as nat) {
        Err(e) => Err(e),
        Ok(n) => if n.end + 4 > buf.len() {
            Err(DnsError::TruncatedInput)
        } else {
            Ok(
                QuestionModel {
                    qname: n.raw,
                    name: dotted(n.labels),
                    qtype: read_be16(buf, n.end),
                    qclass: read_be16(buf, n.end + 2),
                    pos: n.end + 4,
                },
            )
        },
    }
}

/// The result of `parse_query`, held against `question_at`.
pub open spec fn query_as(r: Result<DnsQuery, DnsError>, m: Result<QuestionModel, DnsError>) -> bool {
    match m {
        Ok(q) => match r {
            Ok(d) => d@ == q,
            Err(_) => false,
        },
        Err(e) => r == Err::<DnsQuery, DnsError>(e),
    }
}

/// Decodes the question at `pos` of `buf`.
pub fn parse_query(buf: &[u8], pos: usize) -> (r: Result<DnsQuery, DnsError>)
    ensures
        query_as(r, question_at(buf@, pos as int)),
{
    let (qname, name, end) = match parse_label_sequence(buf, pos) {
        Ok(parts) => parts,
        Err(e) => {
            return Err(e);
        },
    };
    if end > buf.len() || buf.len() - end < 4 {
        return Err(DnsError::TruncatedInput);
    }
    let qtype = read_u16_be(buf, end);
    let qclass = read_u16_be(buf, end + 2);
    Ok(DnsQuery { qname, name, qtype, qclass, pos: end + 4 })
}

} // verus!
