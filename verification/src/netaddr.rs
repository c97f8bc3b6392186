//! IP addresses and networks as plain numbers, with parsing and containment
//! delegated to `core::net` and `ipnet`.

use vstd::prelude::*;
use vstd::arithmetic::power2::pow2;

verus! {

/// An IP address: a 32-bit IPv4 address or a 128-bit IPv6 address, as the
/// big-endian number of its octets.
#[derive(Clone, Copy, Debug, PartialEq, Eq, Structural)]
pub enum IpValue {
    V4(u32),
    V6(u128),
}

/// An IP network: an address and a prefix length.
#[derive(Clone, Copy, Debug, PartialEq, Eq, Structural)]
pub enum NetValue {
    V4(u32, u8),
    V6(u128, u8),
}

/// The prefix length fits the address family.
pub open spec fn net_prefix_valid(net: NetValue) -> bool {
    match net {
        NetValue::V4(_, p) => p <= 32,
        NetValue::V6(_, p) => p <= 128,
    }
}

/// The number of addresses in a block of `bits`-bit addresses sharing a `prefix`-bit prefix.
pub open spec fn block_size(bits: nat, prefix: nat) -> nat {
    pow2((bits - prefix) as nat)
}

/// The lowest address of the block of `addr` (the network address).
pub open spec fn block_start(addr: nat, bits: nat, prefix: nat) -> nat {
    (addr - addr % block_size(bits, prefix)) as nat
}

/// `ip` lies between the network address and the broadcast address of the
/// block of `addr`.
pub open spec fn in_block(addr: nat, ip: nat, bits: nat, prefix: nat) -> bool {
    block_start(addr, bits, prefix) <= ip
        && ip <= block_start(addr, bits, prefix) + block_size(bits, prefix) - 1
}

/// Whether `net` contains `ip`: same family, and `ip` within the block.
pub open spec fn net_contains(net: NetValue, ip: IpValue) -> bool {
    match (net, ip) {
        (NetValue::V4(a, p), IpValue::V4(x)) => in_block(a as nat, x as nat, 32, p as nat),
        (NetValue::V6(a, p), IpValue::V6(x)) => in_block(a as nat, x as nat, 128, p as nat),
        _ => false,
    }
}

/// The single-host network of an address (`/32` or `/128`).
pub open spec fn host_net(ip: IpValue) -> NetValue {
    match ip {
        IpValue::V4(a) => NetValue::V4(a, 32),
        IpValue::V6(a) => NetValue::V6(a, 128),
    }
}

/// What `core::net::IpAddr::from_str` gives for a text.
pub uninterp spec fn ip_addr_from_text(text: Seq<char>) -> Option<IpValue>;

/// What `ipnet::IpNet::from_str` gives for a text.
pub uninterp spec fn ip_net_from_text(text: Seq<char>) -> Option<NetValue>;

/// Reads an IP address with `core::net::IpAddr::from_str`. Its grammar (dotted
/// IPv4, IPv6 with `::` compression) is left to the name `ip_addr_from_text`.
#[verifier::external_body]
pub(crate) fn parse_ip(text: &str) -> (r: Option<IpValue>)
    ensures
        r == ip_addr_from_text(text@),
{
    match text.parse::<core::net::IpAddr>() {
        Ok(core::net::IpAddr::V4(a)) => Some(IpValue::V4(u32::from(a))),
        Ok(core::net::IpAddr::V6(a)) => Some(IpValue::V6(u128::from(a))),
        Err(_) => None,
    }
}

/// Reads a network in CIDR notation with `ipnet::IpNet::from_str`. Its grammar
/// is left to the name `ip_net_from_text`; the parser only accepts prefix
/// lengths up to 32 (IPv4) or 128 (IPv6), which is stated.
#[verifier::external_body]
pub(crate) fn parse_ip_net(text: &str) -> (r: Option<NetValue>)
    ensures
        r == ip_net_from_text(text@),
        r matches Some(n) ==> net_prefix_valid(n),
{
    match text.parse::<ipnet::IpNet>() {
        Ok(ipnet::IpNet::V4(n)) => Some(NetValue::V4(u32::from(n.addr()), n.prefix_len())),
        Ok(ipnet::IpNet::V6(n)) => Some(NetValue::V6(u128::from(n.addr()), n.prefix_len())),
        Err(_) => None,
    }
}

/// `ipnet::IpNet::contains` on an address: false across families, otherwise
/// `network() <= ip && ip <= broadcast()`, where the network address clears
/// and the broadcast address sets the bits after the prefix.
#[verifier::external_body]
pub(crate) fn network_contains(net: &NetValue, ip: &IpValue) -> (r: bool)
    requires
        net_prefix_valid(*net),
    ensures
        r == net_contains(*net, *ip),
{
    let n = match *net {
        NetValue::V4(a, p) => ipnet::IpNet::new(core::net::Ipv4Addr::from(a).into(), p),
        NetValue::V6(a, p) => ipnet::IpNet::new(core::net::Ipv6Addr::from(a).into(), p),
    };
    let x: core::net::IpAddr = match *ip {
        IpValue::V4(a) => core::net::Ipv4Addr::from(a).into(),
        IpValue::V6(a) => core::net::Ipv6Addr::from(a).into(),
    };
    n.expect("prefix length within the family's width").contains(&x)
}

/// A single-host network contains exactly its own address.
pub proof fn lemma_host_net_contains(a: IpValue, x: IpValue)
    ensures
        net_contains(host_net(a), x) <==> a == x,
{
    vstd::arithmetic::power2::lemma2_to64();
    match (a, x) {
        (IpValue::V4(p), IpValue::V4(q)) => {
            assert(block_size(32, 32) == 1);
        },
        (IpValue::V6(p), IpValue::V6(q)) => {
            assert(pow2(0) == 1);
            assert(block_size(128, 128) == 1);
        },
        _ => {},
    }
}

} // verus!
