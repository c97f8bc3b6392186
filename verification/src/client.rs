//! Client-side decisions: the server name to present, forwarding
//! specifications, and the statistics line.

use vstd::prelude::*;
use crate::client_stats::ClientStatsClone;
use crate::decimal::{decimal_text, push_decimal};
use crate::text::{
    chars_of, field_shown, find_first, find_from, find_last, first_index_of, last_index_of, lemma_field_at_end,
    lemma_field_before_comma_extends, lemma_field_before_comma_shown, lemma_field_then_comma, lemma_first_index_facts, push_str,
    string_from_range,
};
use crate::util::{binary_size_text, bytes_str};

verus! {

/// The host part of `host:port` (everything before the last `:`), or the
/// whole address when it has no `:`.
pub open spec fn server_name_of(address: Seq<char>) -> Seq<char> {
    match last_index_of(address, ':') {
        None => address,
        Some(k) => address.subrange(0, k),
    }
}

/// The name the client presents to the server at `server_address`.
pub fn get_server_name(server_address: &str) -> (r: String)
    ensures
        r@ == server_name_of(server_address@),
{
    let v = chars_of(server_address);
    match find_last(&v, ':') {
        None => {
            assert(v@.subrange(0, v@.len() as int) =~= v@);
            string_from_range(&v, 0, v.len())
        },
        Some(k) => string_from_range(&v, 0, k),
    }
}

/// Why a forwarding specification is refused.
#[derive(Clone, Copy, Debug, PartialEq, Eq, Structural)]
pub enum ForwardSpecError {
    /// Not exactly one `@`.
    InvalidForwardSpec,
}

/// The two parts of `local_bind@remote_host`, which must hold exactly one `@`.
pub open spec fn forward_spec_parts(spec: Seq<char>) -> Option<(Seq<char>, Seq<char>)> {
    match first_index_of(spec, '@') {
        None => None,
        Some(i) => {
            let rest = spec.subrange(i + 1, spec.len() as int);
            if rest.contains('@') {
                None
            } else {
                Some((spec.subrange(0, i), rest))
            }
        },
    }
}

/// Splits a forwarding specification into the local bind address and the
/// remote address.
pub fn parse_forward_spec(forward_spec: &str) -> (r: Result<(String, String), ForwardSpecError>)
    ensures
        match forward_spec_parts(forward_spec@) {
            Some((local, remote)) => r matches Ok((l, m)) && l@ == local && m@ == remote,
            None => r == Err::<(String, String), ForwardSpecError>(ForwardSpecError::InvalidForwardSpec),
        },
{
    let v = chars_of(forward_spec);
    let n = v.len();
    let i = match find_first(&v, '@') {
        Some(i) => i,
        None => return Err(ForwardSpecError::InvalidForwardSpec),
    };
    proof { lemma_first_index_facts(v@.subrange(i + 1, n as int), '@'); }
    match find_from(&v, '@', i + 1) {
        Some(k) => {
            assert(v@.subrange(i + 1, n as int)[k - i - 1] == '@');
            return Err(ForwardSpecError::InvalidForwardSpec);
        },
        None => {},
    }
    assert(!v@.subrange(i + 1, n as int).contains('@'));
    let local = string_from_range(&v, 0, i);
    let remote = string_from_range(&v, i + 1, n);
    Ok((local, remote))
}

/// The client's statistics line.
pub open spec fn client_stats_text(s: ClientStatsClone) -> Seq<char> {
    "Stats: TC="@ + decimal_text(s.total_connections as nat) + ",AC="@ + decimal_text(s.active_connections as nat)
        + ",TS="@ + decimal_text(s.total_streams as nat) + ",AS="@ + decimal_text(s.active_streams as nat)
        + ",TCC="@ + decimal_text(s.total_client_connections as nat) + ",ACC="@ + decimal_text(
        s.active_client_connections as nat,
    ) + ",SENT="@ + binary_size_text(s.total_sent_bytes) + ",RECV="@ + binary_size_text(s.total_received_bytes)
}

/// Formats the client's statistics line.
pub fn client_stats_line(stats: &ClientStatsClone) -> (r: String)
    ensures
        r@ == client_stats_text(*stats),
{
    let mut out = String::new();
    push_str(&mut out, "Stats: TC=");
    push_decimal(&mut out, stats.total_connections as u64);
    push_str(&mut out, ",AC=");
    push_decimal(&mut out, stats.active_connections as u64);
    push_str(&mut out, ",TS=");
    push_decimal(&mut out, stats.total_streams as u64);
    push_str(&mut out, ",AS=");
    push_decimal(&mut out, stats.active_streams as u64);
    push_str(&mut out, ",TCC=");
    push_decimal(&mut out, stats.total_client_connections as u64);
    push_str(&mut out, ",ACC=");
    push_decimal(&mut out, stats.active_client_connections as u64);
    push_str(&mut out, ",SENT=");
    let sent = bytes_str(stats.total_sent_bytes);
    push_str(&mut out, sent.as_str());
    push_str(&mut out, ",RECV=");
    let received = bytes_str(stats.total_received_bytes);
    push_str(&mut out, received.as_str());
    assert(out@ =~= client_stats_text(*stats));
    out
}



/// Each label of the client's statistics line is followed by its own counter,
/// the number ending at the next comma or at the end of the line.
pub proof fn law_client_stats_fields(s: ClientStatsClone)
    ensures
        field_shown(client_stats_text(s), "Stats: TC="@, decimal_text(s.total_connections as nat)),
        field_shown(client_stats_text(s), ",AC="@, decimal_text(s.active_connections as nat)),
        field_shown(client_stats_text(s), ",TS="@, decimal_text(s.total_streams as nat)),
        field_shown(client_stats_text(s), ",AS="@, decimal_text(s.active_streams as nat)),
        field_shown(client_stats_text(s), ",TCC="@, decimal_text(s.total_client_connections as nat)),
        field_shown(client_stats_text(s), ",ACC="@, decimal_text(s.active_client_connections as nat)),
        field_shown(client_stats_text(s), ",SENT="@, binary_size_text(s.total_sent_bytes)),
        field_shown(client_stats_text(s), ",RECV="@, binary_size_text(s.total_received_bytes)),
{
    broadcast use lemma_field_before_comma_extends;
    reveal_strlit(",AC=");
    reveal_strlit(",TS=");
    reveal_strlit(",AS=");
    reveal_strlit(",TCC=");
    reveal_strlit(",ACC=");
    reveal_strlit(",SENT=");
    reveal_strlit(",RECV=");
    let v0 = decimal_text(s.total_connections as nat);
    let v1 = decimal_text(s.active_connections as nat);
    let v2 = decimal_text(s.total_streams as nat);
    let v3 = decimal_text(s.active_streams as nat);
    let v4 = decimal_text(s.total_client_connections as nat);
    let v5 = decimal_text(s.active_client_connections as nat);
    let v6 = binary_size_text(s.total_sent_bytes);
    let v7 = binary_size_text(s.total_received_bytes);
    let p0 = "Stats: TC="@ + v0;
    let p1 = p0 + ",AC="@ + v1;
    let p2 = p1 + ",TS="@ + v2;
    let p3 = p2 + ",AS="@ + v3;
    let p4 = p3 + ",TCC="@ + v4;
    let p5 = p4 + ",ACC="@ + v5;
    let p6 = p5 + ",SENT="@ + v6;
    let p7 = p6 + ",RECV="@ + v7;
    assert(client_stats_text(s) == p7);
    assert(Seq::<char>::empty() + "Stats: TC="@ + v0 =~= p0);
    lemma_field_then_comma(Seq::<char>::empty(), "Stats: TC="@, v0, ",AC="@);
    lemma_field_before_comma_shown(p7, "Stats: TC="@, v0);
    lemma_field_then_comma(p0, ",AC="@, v1, ",TS="@);
    lemma_field_before_comma_shown(p7, ",AC="@, v1);
    lemma_field_then_comma(p1, ",TS="@, v2, ",AS="@);
    lemma_field_before_comma_shown(p7, ",TS="@, v2);
    lemma_field_then_comma(p2, ",AS="@, v3, ",TCC="@);
    lemma_field_before_comma_shown(p7, ",AS="@, v3);
    lemma_field_then_comma(p3, ",TCC="@, v4, ",ACC="@);
    lemma_field_before_comma_shown(p7, ",TCC="@, v4);
    lemma_field_then_comma(p4, ",ACC="@, v5, ",SENT="@);
    lemma_field_before_comma_shown(p7, ",ACC="@, v5);
    lemma_field_then_comma(p5, ",SENT="@, v6, ",RECV="@);
    lemma_field_before_comma_shown(p7, ",SENT="@, v6);
    lemma_field_at_end(p6, ",RECV="@, v7);
}

} // verus!
