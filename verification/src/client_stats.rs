//! Counters of the client: connections, streams and bytes.

use vstd::prelude::*;
use std::sync::Arc;
use std::sync::atomic::AtomicUsize;
use crate::util::share_arc;

verus! {

/// The client's counters. The byte totals are shared with the data pipes, which
/// add to them concurrently.
pub struct ClientStats {
    pub total_client_connections: usize,
    pub active_client_connections: usize,
    pub total_streams: usize,
    pub active_streams: usize,
    pub total_connections: usize,
    pub active_connections: usize,
    pub total_sent_bytes: Arc<AtomicUsize>,
    pub total_received_bytes: Arc<AtomicUsize>,
}

/// A snapshot of the counters.
pub struct ClientStatsClone {
    pub total_client_connections: usize,
    pub active_client_connections: usize,
    pub total_streams: usize,
    pub active_streams: usize,
    pub total_connections: usize,
    pub active_connections: usize,
    pub total_sent_bytes: usize,
    pub total_received_bytes: usize,
}

/// The connection and stream counters, in declaration order.
pub open spec fn counts(s: ClientStats) -> (usize, usize, usize, usize, usize, usize) {
    (s.total_client_connections, s.active_client_connections, s.total_streams, s.active_streams, s.total_connections, s.active_connections)
}

/// One more, wrapping at `usize::MAX` as an atomic counter does.
pub open spec fn wrapping_inc(x: usize) -> usize {
    if x == usize::MAX { 0 } else { (x + 1) as usize }
}

/// One less, wrapping at 0 as an atomic counter does.
pub open spec fn wrapping_dec(x: usize) -> usize {
    if x == 0 { usize::MAX } else { (x - 1) as usize }
}

fn inc(x: usize) -> (r: usize)
    ensures
        r == wrapping_inc(x),
{
    if x == usize::MAX { 0 } else { x + 1 }
}

fn dec(x: usize) -> (r: usize)
    ensures
        r == wrapping_dec(x),
{
    if x == 0 { usize::MAX } else { x - 1 }
}

/// Counting a start and then an end leaves the active count as it was.
pub proof fn law_start_then_end_restores_active(x: usize)
    ensures
        wrapping_dec(wrapping_inc(x)) == x,
{
}

impl ClientStats {
    /// All counters at 0.
    pub fn new() -> (r: ClientStats)
        ensures
            counts(r) == (0usize, 0usize, 0usize, 0usize, 0usize, 0usize),
    {
        ClientStats {
            total_client_connections: 0,
            active_client_connections: 0,
            total_streams: 0,
            active_streams: 0,
            total_connections: 0,
            active_connections: 0,
            total_sent_bytes: Arc::new(AtomicUsize::new(0)),
            total_received_bytes: Arc::new(AtomicUsize::new(0)),
        }
    }
}

impl ClientStatsClone {
    /// Reads the counters. The byte totals are read from counters that the
    /// data pipes update concurrently, so their values are not stated.
    pub fn get(stats: &ClientStats) -> (r: ClientStatsClone)
        ensures
            r.total_client_connections == stats.total_client_connections,
            r.active_client_connections == stats.active_client_connections,
            r.total_streams == stats.total_streams,
            r.active_streams == stats.active_streams,
            r.total_connections == stats.total_connections,
            r.active_connections == stats.active_connections,
    {
        let total_sent_bytes = stats.total_sent_bytes.load(std::sync::atomic::Ordering::Relaxed);
        let total_received_bytes = stats.total_received_bytes.load(std::sync::atomic::Ordering::Relaxed);
        ClientStatsClone {
            total_client_connections: stats.total_client_connections,
            active_client_connections: stats.active_client_connections,
            total_streams: stats.total_streams,
            active_streams: stats.active_streams,
            total_connections: stats.total_connections,
            active_connections: stats.active_connections,
            total_sent_bytes,
            total_received_bytes,
        }
    }
}

/// The shared counter of bytes sent.
pub fn get_total_sent_bytes_counter(stats: &ClientStats) -> (r: Arc<AtomicUsize>)
    ensures
        r == stats.total_sent_bytes,
{
    share_arc(&stats.total_sent_bytes)
}

/// The shared counter of bytes received.
pub fn get_total_received_bytes_counter(stats: &ClientStats) -> (r: Arc<AtomicUsize>)
    ensures
        r == stats.total_received_bytes,
{
    share_arc(&stats.total_received_bytes)
}

fn increment_total_connections(stats: &mut ClientStats)
    ensures
        final(stats).total_connections == wrapping_inc(old(stats).total_connections),
        final(stats).total_client_connections == old(stats).total_client_connections,
        final(stats).active_client_connections == old(stats).active_client_connections,
        final(stats).total_streams == old(stats).total_streams,
        final(stats).active_streams == old(stats).active_streams,
        final(stats).active_connections == old(stats).active_connections,
        final(stats).total_sent_bytes == old(stats).total_sent_bytes,
        final(stats).total_received_bytes == old(stats).total_received_bytes,
{
    stats.total_connections = inc(stats.total_connections);
}

/// Counts a connection that starts: one more in total and one more active.
pub fn increment_active_connections(stats: &mut ClientStats)
    ensures
        counts(*final(stats)) == (old(stats).total_client_connections, old(stats).active_client_connections, old(stats).total_streams, old(stats).active_streams, wrapping_inc(old(stats).total_connections), wrapping_inc(old(stats).active_connections)),
            final(stats).total_sent_bytes == old(stats).total_sent_bytes,
            final(stats).total_received_bytes == old(stats).total_received_bytes,
{
    increment_total_connections(stats);
    stats.active_connections = inc(stats.active_connections);
}

/// Counts a connection that ends: one less active.
pub fn decrement_active_connections(stats: &mut ClientStats)
    ensures
        counts(*final(stats)) == (old(stats).total_client_connections, old(stats).active_client_connections, old(stats).total_streams, old(stats).active_streams, old(stats).total_connections, wrapping_dec(old(stats).active_connections)),
            final(stats).total_sent_bytes == old(stats).total_sent_bytes,
            final(stats).total_received_bytes == old(stats).total_received_bytes,
{
    stats.active_connections = dec(stats.active_connections);
}

fn increment_total_streams(stats: &mut ClientStats)
    ensures
        final(stats).total_streams == wrapping_inc(old(stats).total_streams),
        final(stats).total_client_connections == old(stats).total_client_connections,
        final(stats).active_client_connections == old(stats).active_client_connections,
        final(stats).active_streams == old(stats).active_streams,
        final(stats).total_connections == old(stats).total_connections,
        final(stats).active_connections == old(stats).active_connections,
        final(stats).total_sent_bytes == old(stats).total_sent_bytes,
        final(stats).total_received_bytes == old(stats).total_received_bytes,
{
    stats.total_streams = inc(stats.total_streams);
}

/// Counts a stream that starts: one more in total and one more active.
pub fn increment_active_streams(stats: &mut ClientStats)
    ensures
        counts(*final(stats)) == (old(stats).total_client_connections, old(stats).active_client_connections, wrapping_inc(old(stats).total_streams), wrapping_inc(old(stats).active_streams), old(stats).total_connections, old(stats).active_connections),
            final(stats).total_sent_bytes == old(stats).total_sent_bytes,
            final(stats).total_received_bytes == old(stats).total_received_bytes,
{
    increment_total_streams(stats);
    stats.active_streams = inc(stats.active_streams);
}

/// Counts a stream that ends: one less active.
pub fn decrement_active_streams(stats: &mut ClientStats)
    ensures
        counts(*final(stats)) == (old(stats).total_client_connections, old(stats).active_client_connections, old(stats).total_streams, wrapping_dec(old(stats).active_streams), old(stats).total_connections, old(stats).active_connections),
            final(stats).total_sent_bytes == old(stats).total_sent_bytes,
            final(stats).total_received_bytes == old(stats).total_received_bytes,
{
    stats.active_streams = dec(stats.active_streams);
}

fn increment_total_client_connections(stats: &mut ClientStats)
    ensures
        final(stats).total_client_connections == wrapping_inc(old(stats).total_client_connections),
        final(stats).active_client_connections == old(stats).active_client_connections,
        final(stats).total_streams == old(stats).total_streams,
        final(stats).active_streams == old(stats).active_streams,
        final(stats).total_connections == old(stats).total_connections,
        final(stats).active_connections == old(stats).active_connections,
        final(stats).total_sent_bytes == old(stats).total_sent_bytes,
        final(stats).total_received_bytes == old(stats).total_received_bytes,
{
    stats.total_client_connections = inc(stats.total_client_connections);
}

/// Counts a client connection that starts: one more in total and one more active.
pub fn increment_active_client_connections(stats: &mut ClientStats)
    ensures
        counts(*final(stats)) == (wrapping_inc(old(stats).total_client_connections), wrapping_inc(old(stats).active_client_connections), old(stats).total_streams, old(stats).active_streams, old(stats).total_connections, old(stats).active_connections),
            final(stats).total_sent_bytes == old(stats).total_sent_bytes,
            final(stats).total_received_bytes == old(stats).total_received_bytes,
{
    increment_total_client_connections(stats);
    stats.active_client_connections = inc(stats.active_client_connections);
}

/// Counts a client connection that ends: one less active.
pub fn decrement_active_client_connections(stats: &mut ClientStats)
    ensures
        counts(*final(stats)) == (old(stats).total_client_connections, wrapping_dec(old(stats).active_client_connections), old(stats).total_streams, old(stats).active_streams, old(stats).total_connections, old(stats).active_connections),
            final(stats).total_sent_bytes == old(stats).total_sent_bytes,
            final(stats).total_received_bytes == old(stats).total_received_bytes,
{
    stats.active_client_connections = dec(stats.active_client_connections);
}

} // verus!
