//! Counters of the server: connections, streams and bytes.

use vstd::prelude::*;
use std::sync::Arc;
use std::sync::atomic::AtomicUsize;
use crate::util::share_arc;

verus! {

/// The server's counters. The byte totals are shared with the data pipes, which
/// add to them concurrently.
pub struct ServerStats {
    pub total_connections: usize,
    pub total_streams: usize,
    pub active_connections: usize,
    pub active_streams: usize,
    pub total_upstream_connections: usize,
    pub active_upstream_connections: usize,
    pub sent_bytes: Arc<AtomicUsize>,
    pub received_bytes: Arc<AtomicUsize>,
}

/// A snapshot of the counters.
pub struct ServerStatsClone {
    pub total_connections: usize,
    pub total_streams: usize,
    pub active_connections: usize,
    pub active_streams: usize,
    pub total_upstream_connections: usize,
    pub active_upstream_connections: usize,
    pub sent_bytes: usize,
    pub received_bytes: usize,
}

/// The connection and stream counters, in declaration order.
pub open spec fn counts(s: ServerStats) -> (usize, usize, usize, usize, usize, usize) {
    (s.total_connections, s.total_streams, s.active_connections, s.active_streams, s.total_upstream_connections, s.active_upstream_connections)
}

/// One more, wrapping at `usize::MAX` as an atomic counter does.
pub open spec fn wrapping_inc(x: usize) -> usize {
    if x == usize::MAX { 0 } else { (x + 1) as usize }
}

/// One less, wrapping at 0 as an atomic counter does.
pub open spec fn wrapping_dec(x: usize) -> usize {
    if x == 0 { usize::MAX } else { (x - 1) as usize }
}

fn inc(x: usize) -> (r: usize)
    ensures
        r == wrapping_inc(x),
{
    if x == usize::MAX { 0 } else { x + 1 }
}

fn dec(x: usize) -> (r: usize)
    ensures
        r == wrapping_dec(x),
{
    if x == 0 { usize::MAX } else { x - 1 }
}

/// Counting a start and then an end leaves the active count as it was.
pub proof fn law_start_then_end_restores_active(x: usize)
    ensures
        wrapping_dec(wrapping_inc(x)) == x,
{
}

impl ServerStats {
    /// All counters at 0.
    pub fn new() -> (r: ServerStats)
        ensures
            counts(r) == (0usize, 0usize, 0usize, 0usize, 0usize, 0usize),
    {
        ServerStats {
            total_connections: 0,
            total_streams: 0,
            active_connections: 0,
            active_streams: 0,
            total_upstream_connections: 0,
            active_upstream_connections: 0,
            sent_bytes: Arc::new(AtomicUsize::new(0)),
            received_bytes: Arc::new(AtomicUsize::new(0)),
        }
    }
}

impl ServerStatsClone {
    /// Reads the counters. The byte totals are read from counters that the
    /// data pipes update concurrently, so their values are not stated.
    pub fn get(stats: &ServerStats) -> (r: ServerStatsClone)
        ensures
            r.total_connections == stats.total_connections,
            r.total_streams == stats.total_streams,
            r.active_connections == stats.active_connections,
            r.active_streams == stats.active_streams,
            r.total_upstream_connections == stats.total_upstream_connections,
            r.active_upstream_connections == stats.active_upstream_connections,
    {
        let sent_bytes = stats.sent_bytes.load(std::sync::atomic::Ordering::Relaxed);
        let received_bytes = stats.received_bytes.load(std::sync::atomic::Ordering::Relaxed);
        ServerStatsClone {
            total_connections: stats.total_connections,
            total_streams: stats.total_streams,
            active_connections: stats.active_connections,
            active_streams: stats.active_streams,
            total_upstream_connections: stats.total_upstream_connections,
            active_upstream_connections: stats.active_upstream_connections,
            sent_bytes,
            received_bytes,
        }
    }
}

/// The shared counter of bytes sent.
pub fn get_sent_bytes_counter(stats: &ServerStats) -> (r: Arc<AtomicUsize>)
    ensures
        r == stats.sent_bytes,
{
    share_arc(&stats.sent_bytes)
}

/// The shared counter of bytes received.
pub fn get_received_bytes_counter(stats: &ServerStats) -> (r: Arc<AtomicUsize>)
    ensures
        r == stats.received_bytes,
{
    share_arc(&stats.received_bytes)
}

fn increment_total_connections(stats: &mut ServerStats)
    ensures
        final(stats).total_connections == wrapping_inc(old(stats).total_connections),
        final(stats).total_streams == old(stats).total_streams,
        final(stats).active_connections == old(stats).active_connections,
        final(stats).active_streams == old(stats).active_streams,
        final(stats).total_upstream_connections == old(stats).total_upstream_connections,
        final(stats).active_upstream_connections == old(stats).active_upstream_connections,
        final(stats).sent_bytes == old(stats).sent_bytes,
        final(stats).received_bytes == old(stats).received_bytes,
{
    stats.total_connections = inc(stats.total_connections);
}

/// Counts a connection that starts: one more in total and one more active.
pub fn increment_active_connections(stats: &mut ServerStats)
    ensures
        counts(*final(stats)) == (wrapping_inc(old(stats).total_connections), old(stats).total_streams, wrapping_inc(old(stats).active_connections), old(stats).active_streams, old(stats).total_upstream_connections, old(stats).active_upstream_connections),
            final(stats).sent_bytes == old(stats).sent_bytes,
            final(stats).received_bytes == old(stats).received_bytes,
{
    increment_total_connections(stats);
    stats.active_connections = inc(stats.active_connections);
}

/// Counts a connection that ends: one less active.
pub fn decrement_active_connections(stats: &mut ServerStats)
    ensures
        counts(*final(stats)) == (old(stats).total_connections, old(stats).total_streams, wrapping_dec(old(stats).active_connections), old(stats).active_streams, old(stats).total_upstream_connections, old(stats).active_upstream_connections),
            final(stats).sent_bytes == old(stats).sent_bytes,
            final(stats).received_bytes == old(stats).received_bytes,
{
    stats.active_connections = dec(stats.active_connections);
}

fn increment_total_streams(stats: &mut ServerStats)
    ensures
        final(stats).total_streams == wrapping_inc(old(stats).total_streams),
        final(stats).total_connections == old(stats).total_connections,
        final(stats).active_connections == old(stats).active_connections,
        final(stats).active_streams == old(stats).active_streams,
        final(stats).total_upstream_connections == old(stats).total_upstream_connections,
        final(stats).active_upstream_connections == old(stats).active_upstream_connections,
        final(stats).sent_bytes == old(stats).sent_bytes,
        final(stats).received_bytes == old(stats).received_bytes,
{
    stats.total_streams = inc(stats.total_streams);
}

/// Counts a stream that starts: one more in total and one more active.
pub fn increment_active_streams(stats: &mut ServerStats)
    ensures
        counts(*final(stats)) == (old(stats).total_connections, wrapping_inc(old(stats).total_streams), old(stats).active_connections, wrapping_inc(old(stats).active_streams), old(stats).total_upstream_connections, old(stats).active_upstream_connections),
            final(stats).sent_bytes == old(stats).sent_bytes,
            final(stats).received_bytes == old(stats).received_bytes,
{
    increment_total_streams(stats);
    stats.active_streams = inc(stats.active_streams);
}

/// Counts a stream that ends: one less active.
pub fn decrement_active_streams(stats: &mut ServerStats)
    ensures
        counts(*final(stats)) == (old(stats).total_connections, old(stats).total_streams, old(stats).active_connections, wrapping_dec(old(stats).active_streams), old(stats).total_upstream_connections, old(stats).active_upstream_connections),
            final(stats).sent_bytes == old(stats).sent_bytes,
            final(stats).received_bytes == old(stats).received_bytes,
{
    stats.active_streams = dec(stats.active_streams);
}

fn increment_total_upstream_connections(stats: &mut ServerStats)
    ensures
        final(stats).total_upstream_connections == wrapping_inc(old(stats).total_upstream_connections),
        final(stats).total_connections == old(stats).total_connections,
        final(stats).total_streams == old(stats).total_streams,
        final(stats).active_connections == old(stats).active_connections,
        final(stats).active_streams == old(stats).active_streams,
        final(stats).active_upstream_connections == old(stats).active_upstream_connections,
        final(stats).sent_bytes == old(stats).sent_bytes,
        final(stats).received_bytes == old(stats).received_bytes,
{
    stats.total_upstream_connections = inc(stats.total_upstream_connections);
}

/// Counts a upstream connection that starts: one more in total and one more active.
pub fn increment_active_upstream_connections(stats: &mut ServerStats)
    ensures
        counts(*final(stats)) == (old(stats).total_connections, old(stats).total_streams, old(stats).active_connections, old(stats).active_streams, wrapping_inc(old(stats).total_upstream_connections), wrapping_inc(old(stats).active_upstream_connections)),
            final(stats).sent_bytes == old(stats).sent_bytes,
            final(stats).received_bytes == old(stats).received_bytes,
{
    increment_total_upstream_connections(stats);
    stats.active_upstream_connections = inc(stats.active_upstream_connections);
}

/// Counts a upstream connection that ends: one less active.
pub fn decrement_active_upstream_connections(stats: &mut ServerStats)
    ensures
        counts(*final(stats)) == (old(stats).total_connections, old(stats).total_streams, old(stats).active_connections, old(stats).active_streams, old(stats).total_upstream_connections, wrapping_dec(old(stats).active_upstream_connections)),
            final(stats).sent_bytes == old(stats).sent_bytes,
            final(stats).received_bytes == old(stats).received_bytes,
{
    stats.active_upstream_connections = dec(stats.active_upstream_connections);
}

} // verus!
