//! The connect request and its one-byte acknowledgement.

use vstd::prelude::*;
use crate::stringmap::StringMap;
use crate::text::owned;
use crate::util::{be_u32_bytes, be_u32_value};

verus! {

/// The fields of a connect request: `target` and `source_ip`.
pub fn build_connect_request(target: &str, source_ip: &str) -> (r: StringMap)
    ensures
        r.wf(),
        r@ == Map::<Seq<char>, Seq<char>>::empty().insert("target"@, target@).insert("source_ip"@, source_ip@),
{
    let mut data = StringMap::new();
    data.insert(owned("target"), owned(target));
    data.insert(owned("source_ip"), owned(source_ip));
    data
}

/// The acknowledgement byte: 1 when the target was reached, 0 otherwise.
pub open spec fn ack_byte(ok: bool) -> u8 {
    if ok { 1 } else { 0 }
}

/// The framed acknowledgement: a length prefix of 1, then the acknowledgement byte.
pub fn build_connect_response(ok: bool) -> (r: Vec<u8>)
    ensures
        r@ == be_u32_bytes(1) + seq![ack_byte(ok)],
{
    let mut buf: Vec<u8> = Vec::new();
    buf.push(0);
    buf.push(0);
    buf.push(0);
    buf.push(1);
    buf.push(if ok { 1 } else { 0 });
    assert(buf@ =~= be_u32_bytes(1) + seq![ack_byte(ok)]);
    buf
}

/// Whether an acknowledgement payload reports success.
pub fn is_connect_success(packet: &[u8]) -> (r: bool)
    requires
        packet@.len() >= 1,
    ensures
        r == (packet@[0] == 1),
{
    packet[0] == 1
}

/// The acknowledgement frame announces a 1-byte payload, and that payload
/// reads back as whether the target was reached.
pub proof fn law_connect_ack_roundtrip(ok: bool)
    ensures
        ({
            let frame = be_u32_bytes(1) + seq![ack_byte(ok)];
            &&& be_u32_value(frame) == 1
            &&& frame.len() == 5
            &&& (frame.subrange(4, 5)[0] == 1) == ok
        }),
{
    let frame = be_u32_bytes(1) + seq![ack_byte(ok)];
    assert(frame.subrange(4, 5)[0] == ack_byte(ok));
}

} // verus!
