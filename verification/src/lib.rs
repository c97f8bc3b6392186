//! Portal: the verified core of a QUIC tunnel (access control, framing,
//! request handling and counters).

pub mod text;
pub mod decimal;
pub mod netaddr;
pub mod pattern;
pub mod aclutil;
pub mod stringmap;
pub mod util;
pub mod messages;
pub mod requests;
pub mod client_stats;
pub mod server_stats;
pub mod client;
pub mod server;
