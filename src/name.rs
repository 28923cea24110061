use vstd::prelude::*;

use crate::error::DnsError;

verus! {

/// A length byte with both top bits set starts a compression pointer.
pub const PTR_MASK: u8 = 0xc0;

/// How many compression pointers one name may follow before decoding gives up.
pub const MAX_POINTER_HOPS: u32 = 128;

/// What decoding a name yields: the raw label encoding with every pointer
/// expanded, the labels in order, and the offset just after the name's bytes
/// in the stream where it started.
pub struct DecodedName {
    pub raw: Seq<u8>,
    pub labels: Seq<Seq<u8>>,
    pub end: int,
}

/// The offset a pointer whose two bytes are `hi`, `lo` refers to: the low
/// fourteen bits, big-endian.
pub open spec fn pointer_target(hi: u8, lo: u8) -> int {
    (hi & 0x3fu8) as int * 256 + lo as int
}

/// Whether `b` starts a compression pointer.
pub open spec fn is_pointer(b: u8) -> bool {
    b & PTR_MASK == PTR_MASK
}

/// Decodes the name at `pos` of `buf`, following at most `hops` pointers.
///
/// A zero byte ends the name. A byte with both top bits set and the byte after
/// it form a pointer: the name goes on at the pointer's target and ends there,
/// while the pointer itself takes two bytes of the current stream. Any other
/// byte is a length, followed by that many bytes of one label.
pub open spec fn decode_name(buf: Seq<u8>, pos: int, hops: nat) -> Result<DecodedName, DnsError>
    decreases hops, buf.len() - pos,
{
    if pos < 0 || pos >= buf.len() {
        Err(DnsError::IncompleteLabelSequence)
    } else if is_pointer(buf[pos]) {
        if pos + 1 >= buf.len() {
            Err(DnsError::IncompleteLabelSequence)
        } else if hops == 0 {
            Err(DnsError::PointerLoopDetected)
        } else {
            match decode_name(buf, pointer_target(buf[pos], buf[pos + 1]), (hops - 1) as nat) {
                Ok(n) => Ok(DecodedName { raw: n.raw, labels: n.labels, end: pos + 2 }),
                Err(e) => Err(e),
            }
        }
    } else if buf[pos] == 0 {
        Ok(DecodedName { raw: seq![0u8], labels: seq![], end: pos + 1 })
    } else if pos + 1 + buf[pos] > buf.len() {
        Err(DnsError::IncompleteLabelSequence)
    } else {
        let label = buf.subrange(pos + 1, pos + 1 + buf[pos]);
        match decode_name(buf, pos + 1 + buf[pos], hops) {
            Ok(n) => Ok(
                DecodedName {
                    raw: seq![buf[pos]] + label + n.raw,
                    labels: seq![label] + n.labels,
                    end: n.end,
                },
            ),
            Err(e) => Err(e),
        }
    }
}

/// A name that starts with a pointer takes exactly the pointer's two bytes of
/// the current stream, and holds just what the name at the pointer's target
/// holds.
pub proof fn lemma_pointer_takes_two_bytes(buf: Seq<u8>, pos: int, hops: nat)
    requires
        0 <= pos < buf.len(),
        is_pointer(buf[pos]),
        decode_name(buf, pos, hops) is Ok,
    ensures
        decode_name(buf, pos, hops)->Ok_0.end == pos + 2,
        hops > 0,
        decode_name(buf, pointer_target(buf[pos], buf[pos + 1]), (hops - 1) as nat) is Ok,
        decode_name(buf, pointer_target(buf[pos], buf[pos + 1]), (hops - 1) as nat)->Ok_0.raw
            == decode_name(buf, pos, hops)->Ok_0.raw,
        decode_name(buf, pointer_target(buf[pos], buf[pos + 1]), (hops - 1) as nat)->Ok_0.labels
            == decode_name(buf, pos, hops)->Ok_0.labels,
{
}

/// `r` with `raw` and `labels` put in front of what it decoded.
pub open spec fn preceded_by(
    raw: Seq<u8>,
    labels: Seq<Seq<u8>>,
    r: Result<DecodedName, DnsError>,
) -> Result<DecodedName, DnsError> {
    match r {
        Ok(n) => Ok(DecodedName { raw: raw + n.raw, labels: labels + n.labels, end: n.end }),
        Err(e) => Err(e),
    }
}

/// The byte sequences that the vectors hold.
pub open spec fn views(ls: Seq<Vec<u8>>) -> Seq<Seq<u8>> {
    ls.map_values(|l: Vec<u8>| l@)
}

/// The result of a decode, held against what `decode_name` says of it.
pub open spec fn decoded_as(
    r: Result<(Vec<u8>, Vec<Vec<u8>>, usize), DnsError>,
    d: Result<DecodedName, DnsError>,
) -> bool {
    match d {
        Ok(n) => match r {
            Ok((raw, labels, end)) => raw@ == n.raw && views(labels@) == n.labels && end == n.end,
            Err(_) => false,
        },
        Err(e) => r == Err::<(Vec<u8>, Vec<Vec<u8>>, usize), DnsError>(e),
    }
}

/// Decodes the labels of the name at `start`, following at most `hops` pointers.
fn decode_labels(buf: &[u8], start: usize, hops: u32) -> (r: Result<
    (Vec<u8>, Vec<Vec<u8>>, usize),
    DnsError,
>)
    ensures
        decoded_as(r, decode_name(buf@, start as int, hops as nat)),
    decreases hops,
{
    let mut raw: Vec<u8> = Vec::new();
    let mut labels: Vec<Vec<u8>> = Vec::new();
    let mut pos: usize = start;
    assert(preceded_by(raw@, views(labels@), decode_name(buf@, pos as int, hops as nat))
        =~= decode_name(buf@, start as int, hops as nat)) by {
        assert(raw@ + seq![] =~= raw@);
        assert(views(labels@) =~= seq![]);
        match decode_name(buf@, pos as int, hops as nat) {
            Ok(n) => {
                assert(raw@ + n.raw =~= n.raw);
                assert(views(labels@) + n.labels =~= n.labels);
            },
            Err(_) => {},
        }
    }
    loop
        invariant
            preceded_by(raw@, views(labels@), decode_name(buf@, pos as int, hops as nat))
                == decode_name(buf@, start as int, hops as nat),
        decreases buf@.len() - pos,
    {
        if pos >= buf.len() {
            return Err(DnsError::IncompleteLabelSequence);
        }
        let len = buf[pos];
        if len & PTR_MASK == PTR_MASK {
            if pos + 1 >= buf.len() {
                return Err(DnsError::IncompleteLabelSequence);
            }
            if hops == 0 {
                return Err(DnsError::PointerLoopDetected);
            }
            let target = ((len & 0x3fu8) as usize) * 256 + buf[pos + 1] as usize;
            match decode_labels(buf, target, hops - 1) {
                Ok((tail_raw, tail_labels, _)) => {
                    let ghost old_raw = raw@;
                    let ghost old_labels = labels@;
                    let mut tail_raw = tail_raw;
                    let mut tail_labels = tail_labels;
                    let ghost appended = tail_labels@;
                    raw.append(&mut tail_raw);
                    labels.append(&mut tail_labels);
                    assert(views(labels@) =~= views(old_labels) + views(appended));
                    return Ok((raw, labels, pos + 2));
                },
                Err(e) => {
                    return Err(e);
                },
            }
        } else if len == 0 {
            let ghost old_raw = raw@;
            raw.push(0);
            assert(raw@ =~= old_raw + seq![0u8]);
            assert(views(labels@) =~= views(labels@) + seq![]);
            return Ok((raw, labels, pos + 1));
        } else {
            if len as usize > buf.len() - pos - 1 {
                return Err(DnsError::IncompleteLabelSequence);
            }
            let end = pos + 1 + len as usize;
            let mut label: Vec<u8> = Vec::new();
            label.extend_from_slice(&buf[pos + 1..end]);
            let ghost old_raw = raw@;
            let ghost old_labels = labels@;
            let ghost l = buf@.subrange(pos + 1, end as int);
            assert(label@ =~= l);
            raw.push(len);
            raw.extend_from_slice(&buf[pos + 1..end]);
            labels.push(label);
            assert(raw@ =~= old_raw + (seq![len] + l));
            assert(views(labels@) =~= views(old_labels) + seq![l]);
            proof {
                match decode_name(buf@, end as int, hops as nat) {
                    Ok(n) => {
                        assert(raw@ + n.raw =~= old_raw + (seq![len] + l + n.raw));
                        assert(views(labels@) + n.labels =~= views(old_labels) + (seq![l]
                            + n.labels));
                    },
                    Err(_) => {},
                }
            }
            pos = end;
        }
    }
}

/// The text that lossy UTF-8 decoding makes of `b`.
pub uninterp spec fn lossy_utf8(b: Seq<u8>) -> Seq<char>;

/// Relies on `String::from_utf8_lossy`: the text depends on the bytes alone.
#[verifier::external_body]
fn lossy_text(b: &[u8]) -> (r: String)
    ensures
        r@ == lossy_utf8(b@),
{
    String::from_utf8_lossy(b).into_owned()
}

/// Relies on `String::push_str`: `t` is appended to `s`.
#[verifier::external_body]
fn push_text(s: &mut String, t: &str)
    ensures
        final(s)@ == old(s)@ + t@,
{
    s.push_str(t)
}

/// The display form of a name: its labels, each decoded as lossy UTF-8,
/// joined by dots, with no trailing dot.
pub open spec fn dotted(labels: Seq<Seq<u8>>) -> Seq<char>
    decreases labels.len(),
{
    if labels.len() == 0 {
        seq![]
    } else if labels.len() == 1 {
        lossy_utf8(labels[0])
    } else {
        dotted(labels.drop_last()) + seq!['.'] + lossy_utf8(labels.last())
    }
}

/// Joins the labels into the display form of the name.
pub fn display_name(labels: &Vec<Vec<u8>>) -> (r: String)
    ensures
        r@ == dotted(views(labels@)),
{
    let mut name = String::new();
    let mut i: usize = 0;
    while i < labels.len()
        invariant
            i <= labels@.len(),
            name@ == dotted(views(labels@.take(i as int))),
        decreases labels@.len() - i,
    {
        let ghost before = views(labels@.take(i as int));
        let ghost after = views(labels@.take(i + 1));
        assert(after.drop_last() =~= before);
        assert(after.last() == labels@[i as int]@);
        if i > 0 {
            proof {
                reveal_strlit(".");
            }
            push_text(&mut name, ".");
        }
        let text = lossy_text(labels[i].as_slice());
        push_text(&mut name, text.as_str());
        i = i + 1;
    }
    assert(labels@.take(i as int) =~= labels@);
    name
}

/// The result of `parse_label_sequence`, held against `decode_name`.
pub open spec fn label_sequence_as(
    r: Result<(Vec<u8>, String, usize), DnsError>,
    d: Result<DecodedName, DnsError>,
) -> bool {
    match d {
        Ok(n) => match r {
            Ok((raw, name, end)) => raw@ == n.raw && name@ == dotted(n.labels) && end == n.end,
            Err(_) => false,
        },
        Err(e) => r == Err::<(Vec<u8>, String, usize), DnsError>(e),
    }
}

/// Decodes the name at `pos` of `buf`: its raw encoding with pointers
/// expanded, its display form, and the offset just after its bytes in the
/// stream where it started (a pointer counts two bytes there).
pub fn parse_label_sequence(buf: &[u8], pos: usize) -> (r: Result<(Vec<u8>, String, usize), DnsError>)
    ensures
        label_sequence_as(r, decode_name(buf@, pos as int, MAX_POINTER_HOPS as nat)),
{
    match decode_labels(buf, pos, MAX_POINTER_HOPS) {
        Ok((raw, labels, end)) => {
            let name = display_name(&labels);
            Ok((raw, name, end))
        },
        Err(e) => Err(e),
    }
}

} // verus!
