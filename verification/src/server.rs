//! Server-side formatting of the statistics line.

use vstd::prelude::*;
use crate::decimal::{decimal_text, push_decimal};
use crate::server_stats::ServerStatsClone;
use crate::text::{
    field_shown, lemma_field_at_end, lemma_field_before_comma_extends, lemma_field_before_comma_shown,
    lemma_field_then_comma, push_str,
};
use crate::util::{binary_size_text, bytes_str};

verus! {

/// The server's statistics line.
pub open spec fn server_stats_text(s: ServerStatsClone) -> Seq<char> {
    "Stats: TC="@ + decimal_text(s.total_connections as nat) + ",AC="@ + decimal_text(s.active_connections as nat)
        + ",TS="@ + decimal_text(s.total_streams as nat) + ",AS="@ + decimal_text(s.active_streams as nat)
        + ",TUC="@ + decimal_text(s.total_upstream_connections as nat) + ",AUC="@ + decimal_text(
        s.active_upstream_connections as nat,
    ) + ",SENT="@ + binary_size_text(s.sent_bytes) + ",RECV="@ + binary_size_text(s.received_bytes)
}

/// Formats the server's statistics line.
pub fn server_stats_line(stats: &ServerStatsClone) -> (r: String)
    ensures
        r@ == server_stats_text(*stats),
{
    let mut out = String::new();
    push_str(&mut out, "Stats: TC=");
    push_decimal(&mut out, stats.total_connections as u64);
    push_str(&mut out, ",AC=");
    push_decimal(&mut out, stats.active_connections as u64);
    push_str(&mut out, ",TS=");
    push_decimal(&mut out, stats.total_streams as u64);
    push_str(&mut out, ",AS=");
    push_decimal(&mut out, stats.active_streams as u64);
    push_str(&mut out, ",TUC=");
    push_decimal(&mut out, stats.total_upstream_connections as u64);
    push_str(&mut out, ",AUC=");
    push_decimal(&mut out, stats.active_upstream_connections as u64);
    push_str(&mut out, ",SENT=");
    let sent = bytes_str(stats.sent_bytes);
    push_str(&mut out, sent.as_str());
    push_str(&mut out, ",RECV=");
    let received = bytes_str(stats.received_bytes);
    push_str(&mut out, received.as_str());
    assert(out@ =~= server_stats_text(*stats));
    out
}



/// Each label of the server's statistics line is followed by its own counter,
/// the number ending at the next comma or at the end of the line.
pub proof fn law_server_stats_fields(s: ServerStatsClone)
    ensures
        field_shown(server_stats_text(s), "Stats: TC="@, decimal_text(s.total_connections as nat)),
        field_shown(server_stats_text(s), ",AC="@, decimal_text(s.active_connections as nat)),
        field_shown(server_stats_text(s), ",TS="@, decimal_text(s.total_streams as nat)),
        field_shown(server_stats_text(s), ",AS="@, decimal_text(s.active_streams as nat)),
        field_shown(server_stats_text(s), ",TUC="@, decimal_text(s.total_upstream_connections as nat)),
        field_shown(server_stats_text(s), ",AUC="@, decimal_text(s.active_upstream_connections as nat)),
        field_shown(server_stats_text(s), ",SENT="@, binary_size_text(s.sent_bytes)),
        field_shown(server_stats_text(s), ",RECV="@, binary_size_text(s.received_bytes)),
{
    broadcast use lemma_field_before_comma_extends;
    reveal_strlit(",AC=");
    reveal_strlit(",TS=");
    reveal_strlit(",AS=");
    reveal_strlit(",TUC=");
    reveal_strlit(",AUC=");
    reveal_strlit(",SENT=");
    reveal_strlit(",RECV=");
    let v0 = decimal_text(s.total_connections as nat);
    let v1 = decimal_text(s.active_connections as nat);
    let v2 = decimal_text(s.total_streams as nat);
    let v3 = decimal_text(s.active_streams as nat);
    let v4 = decimal_text(s.total_upstream_connections as nat);
    let v5 = decimal_text(s.active_upstream_connections as nat);
    let v6 = binary_size_text(s.sent_bytes);
    let v7 = binary_size_text(s.received_bytes);
    let p0 = "Stats: TC="@ + v0;
    let p1 = p0 + ",AC="@ + v1;
    let p2 = p1 + ",TS="@ + v2;
    let p3 = p2 + ",AS="@ + v3;
    let p4 = p3 + ",TUC="@ + v4;
    let p5 = p4 + ",AUC="@ + v5;
    let p6 = p5 + ",SENT="@ + v6;
    let p7 = p6 + ",RECV="@ + v7;
    assert(server_stats_text(s) == p7);
    assert(Seq::<char>::empty() + "Stats: TC="@ + v0 =~= p0);
    lemma_field_then_comma(Seq::<char>::empty(), "Stats: TC="@, v0, ",AC="@);
    lemma_field_before_comma_shown(p7, "Stats: TC="@, v0);
    lemma_field_then_comma(p0, ",AC="@, v1, ",TS="@);
    lemma_field_before_comma_shown(p7, ",AC="@, v1);
    lemma_field_then_comma(p1, ",TS="@, v2, ",AS="@);
    lemma_field_before_comma_shown(p7, ",TS="@, v2);
    lemma_field_then_comma(p2, ",AS="@, v3, ",TUC="@);
    lemma_field_before_comma_shown(p7, ",AS="@, v3);
    lemma_field_then_comma(p3, ",TUC="@, v4, ",AUC="@);
    lemma_field_before_comma_shown(p7, ",TUC="@, v4);
    lemma_field_then_comma(p4, ",AUC="@, v5, ",SENT="@);
    lemma_field_before_comma_shown(p7, ",AUC="@, v5);
    lemma_field_then_comma(p5, ",SENT="@, v6, ",RECV="@);
    lemma_field_before_comma_shown(p7, ",SENT="@, v6);
    lemma_field_at_end(p6, ",RECV="@, v7);
}

} // verus!
