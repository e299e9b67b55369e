//! DNS wire-format messages, read and written by hickory-proto.
use hickory_proto::op::{Message, MessageType};
use hickory_proto::rr::rdata::A;
use hickory_proto::rr::{Name, RData, Record};
use hickory_proto::serialize::binary::{BinEncodable, BinEncoder};
use vstd::prelude::*;

verus! {

/// The TTLs of the answer records of a wire-format message, in order, or
/// `None` when hickory-proto's `Message::from_vec` does not accept the bytes.
pub uninterp spec fn message_answer_ttls(wire: Seq<u8>) -> Option<Seq<u32>>;

/// Calls `Message::from_vec` from hickory-proto and lists the TTL of each
/// answer record.
///
/// The contract names the result `message_answer_ttls(wire)`; decoding
/// depends on the bytes alone, and nothing more is claimed of it.
#[verifier::external_body]
pub fn answer_ttls(wire: &[u8]) -> (r: Option<Vec<u32>>)
    ensures
        match r {
            Some(t) => message_answer_ttls(wire@) == Some(t@),
            None => message_answer_ttls(wire@) is None,
        },
{
    let m = Message::from_vec(wire).ok()?;
    let mut ttls = Vec::new();
    for r in m.answers() {
        ttls.push(r.ttl());
    }
    Some(ttls)
}

/// The wire form of a response message with one A answer, as hickory-proto
/// writes it, or `None` when the name does not parse or the message cannot be
/// written.
pub uninterp spec fn a_response_wire(
    fqdn: Seq<char>,
    ttl: u32,
    ip: Seq<u8>,
    authoritative: bool,
) -> Option<Seq<u8>>;

/// Builds with hickory-proto a response `Message` whose single answer is an A
/// record for `fqdn` (parsed by `Name::from_str`) with the given TTL and
/// address, sets its authoritative flag, and emits it with a `BinEncoder`.
///
/// The contract names the result `a_response_wire(..)` over all four
/// arguments; nothing more is claimed of the bytes.
#[verifier::external_body]
pub fn a_response_bytes(fqdn: &str, ttl: u32, ip: [u8; 4], authoritative: bool) -> (r: Option<
    Vec<u8>,
>)
    ensures
        match r {
            Some(b) => a_response_wire(fqdn@, ttl, ip@, authoritative) == Some(b@),
            None => a_response_wire(fqdn@, ttl, ip@, authoritative) is None,
        },
{
    let name = <Name as std::str::FromStr>::from_str(fqdn).ok()?;
    let mut msg = Message::new();
    msg.set_message_type(MessageType::Response);
    msg.set_authoritative(authoritative);
    let a = A::new(ip[0], ip[1], ip[2], ip[3]);
    msg.add_answer(Record::from_rdata(name, ttl, RData::A(a)));
    let mut bytes = Vec::new();
    let mut encoder = BinEncoder::new(&mut bytes);
    msg.emit(&mut encoder).ok()?;
    Some(bytes)
}

} // verus!
