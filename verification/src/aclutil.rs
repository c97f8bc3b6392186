//! Access control lists: rules, their order, their evaluation against a
//! connection request, and their HCL text.

use vstd::prelude::*;
use crate::decimal::{
    all_digits, decimal_text, is_digit, lemma_decimal_text, lemma_parse_u16_text, parse_u16, parse_u16_spec,
    parse_unsigned, push_decimal, push_signed_decimal, signed_decimal_text,
};
use crate::netaddr::{
    host_net, ip_addr_from_text, ip_net_from_text, net_contains, network_contains, parse_ip,
    parse_ip_net, IpValue, NetValue,
};
use crate::pattern::{build_case_insensitive, host_pattern_matches, regex_is_match};
use crate::text::{
    chars_of, find_first, find_last, first_index_of, last_index_of, lemma_first_index_unique, lemma_last_index_unique,
    lowercase_text, occurs_at,
    owned, push_str, string_from_range, to_lowercase, trim, trim_bounds, trim_end, trim_start,
};

verus! {

/// What a rule decides.
#[derive(Clone, Copy, Debug, PartialEq, Eq, Structural)]
pub enum ACLAction {
    Allow,
    Deny,
}

/// A port, or an inclusive range of ports.
#[derive(Clone, Copy, Debug, PartialEq, Eq, Structural)]
pub enum PortEntry {
    SinglePort(u16),
    PortRange(u16, u16),
}

/// The destinations a rule applies to: host patterns and ports.
#[derive(Clone, Debug)]
pub struct ACLTarget {
    pub hosts: Vec<String>,
    pub ports: Vec<PortEntry>,
}

/// One rule. `index` is the rule's position in the file it was read from.
#[derive(Clone, Debug)]
pub struct ACLRule {
    pub index: usize,
    pub priority: i32,
    pub action: ACLAction,
    pub from: Vec<String>,
    pub to: ACLTarget,
}

/// A list of rules, evaluated in order.
#[derive(Clone, Debug)]
pub struct ACLFile {
    pub acl: Vec<ACLRule>,
}

/// Why a target text is not `host:port`.
#[derive(Clone, Copy, Debug, PartialEq, Eq, Structural)]
pub enum TargetError {
    /// No `:` in the text.
    MissingPort,
    /// What follows the last `:` is not a port number.
    InvalidPort,
}

/// The priority of a rule that names none.
pub fn default_priority() -> (p: i32)
    ensures
        p == 0,
{
    0
}

// ---------------------------------------------------------------------------
// Matching

/// Whether a port entry admits `port` (ranges are inclusive).
pub open spec fn port_entry_matches(entry: PortEntry, port: u16) -> bool {
    match entry {
        PortEntry::SinglePort(p) => p == port,
        PortEntry::PortRange(start, end) => start <= port && port <= end,
    }
}

/// Whether a `from` entry admits the source address. An entry without `/` is
/// a single address; one with `/` is a network in CIDR notation. Entries that
/// do not parse admit nothing.
pub open spec fn cidr_matches(cidr: Seq<char>, ip: IpValue) -> bool {
    if !cidr.contains('/') {
        match ip_addr_from_text(cidr) {
            Some(a) => a == ip || net_contains(host_net(a), ip),
            None => false,
        }
    } else {
        match ip_net_from_text(cidr) {
            Some(n) => net_contains(n, ip),
            None => false,
        }
    }
}

/// A rule matches when some `from` entry admits the source, some host pattern
/// matches the target host, and some port entry admits the target port.
pub open spec fn rule_matches(rule: ACLRule, ip: IpValue, host: Seq<char>, port: u16) -> bool {
    &&& exists|i: int| 0 <= i < rule.from@.len() && cidr_matches(#[trigger] rule.from@[i]@, ip)
    &&& exists|i: int|
        0 <= i < rule.to.hosts@.len() && host_pattern_matches(#[trigger] rule.to.hosts@[i]@, host)
    &&& exists|i: int|
        0 <= i < rule.to.ports@.len() && port_entry_matches(#[trigger] rule.to.ports@[i], port)
}

/// The action of the first rule at or after position `i` that matches; Deny
/// when none does.
pub open spec fn decision_from(
    rules: Seq<ACLRule>,
    i: int,
    ip: IpValue,
    host: Seq<char>,
    port: u16,
) -> ACLAction
    decreases rules.len() - i,
{
    if i < 0 || i >= rules.len() {
        ACLAction::Deny
    } else if rule_matches(rules[i], ip, host, port) {
        rules[i].action
    } else {
        decision_from(rules, i + 1, ip, host, port)
    }
}

/// The action of the first matching rule; Deny when no rule matches.
pub open spec fn first_match_action(
    rules: Seq<ACLRule>,
    ip: IpValue,
    host: Seq<char>,
    port: u16,
) -> ACLAction {
    decision_from(rules, 0, ip, host, port)
}

/// The host and port of a `host:port` text, split at the last `:`.
pub open spec fn target_parts(target: Seq<char>) -> Option<(Seq<char>, u16)> {
    match last_index_of(target, ':') {
        None => None,
        Some(k) => match parse_u16_spec(target.subrange(k + 1, target.len() as int)) {
            Some(p) => Some((target.subrange(0, k), p)),
            None => None,
        },
    }
}

/// A target written as a host, a `:` and the decimal numeral of a port splits
/// back into that host and that port, whatever the host holds (colons too):
/// every port from 0 to 65535 is accepted.
pub proof fn law_written_target_splits_back(host: Seq<char>, port: u16)
    ensures
        target_parts(host + seq![':'] + decimal_text(port as nat)) == Some((host, port)),
{
    let d = decimal_text(port as nat);
    let t = host + seq![':'] + d;
    lemma_decimal_text(port as nat);
    assert forall|j: int| host.len() < j < t.len() implies t[j] != ':' by {
        assert(t[j] == d[j - host.len() - 1]);
        assert(is_digit(d[j - host.len() - 1]));
    }
    assert(t[host.len() as int] == ':');
    lemma_last_index_unique(t, ':', host.len() as int);
    assert(t.subrange(host.len() + 1int, t.len() as int) =~= d);
    assert(t.subrange(0, host.len() as int) =~= host);
    lemma_parse_u16_text(port);
}

/// The decision on a connection from `source_ip` to `target`: Deny when the
/// target is not `host:port` or the source is not an IP address, otherwise
/// the action of the first matching rule, Deny when none matches.
pub open spec fn acl_decision(rules: Seq<ACLRule>, source_ip: Seq<char>, target: Seq<char>) -> ACLAction {
    match target_parts(target) {
        None => ACLAction::Deny,
        Some((host, port)) => match ip_addr_from_text(source_ip) {
            None => ACLAction::Deny,
            Some(ip) => first_match_action(rules, ip, host, port),
        },
    }
}

proof fn lemma_decision_skip(
    rules: Seq<ACLRule>,
    i: int,
    k: int,
    ip: IpValue,
    host: Seq<char>,
    port: u16,
)
    requires
        0 <= i <= k <= rules.len(),
        forall|j: int| i <= j < k ==> !rule_matches(#[trigger] rules[j], ip, host, port),
    ensures
        decision_from(rules, i, ip, host, port) == decision_from(rules, k, ip, host, port),
    decreases k - i,
{
    if i < k {
        lemma_decision_skip(rules, i + 1, k, ip, host, port);
    }
}

/// The first rule that matches decides.
pub proof fn law_first_matching_rule_decides(
    rules: Seq<ACLRule>,
    k: int,
    ip: IpValue,
    host: Seq<char>,
    port: u16,
)
    requires
        0 <= k < rules.len(),
        rule_matches(rules[k], ip, host, port),
        forall|j: int| 0 <= j < k ==> !rule_matches(#[trigger] rules[j], ip, host, port),
    ensures
        first_match_action(rules, ip, host, port) == rules[k].action,
{
    lemma_decision_skip(rules, 0, k, ip, host, port);
}

/// When no rule matches, the connection is denied.
pub proof fn law_no_matching_rule_denies(rules: Seq<ACLRule>, ip: IpValue, host: Seq<char>, port: u16)
    requires
        forall|j: int| 0 <= j < rules.len() ==> !rule_matches(#[trigger] rules[j], ip, host, port),
    ensures
        first_match_action(rules, ip, host, port) == ACLAction::Deny,
{
    lemma_decision_skip(rules, 0, rules.len() as int, ip, host, port);
}

/// A target that is not `host:port`, or a source that is not an IP address,
/// is denied whatever the rules say.
pub proof fn law_malformed_request_denied(rules: Seq<ACLRule>, source_ip: Seq<char>, target: Seq<char>)
    requires
        target_parts(target) is None || ip_addr_from_text(source_ip) is None,
    ensures
        acl_decision(rules, source_ip, target) == ACLAction::Deny,
{
}

impl ACLFile {
    /// Decides whether a connection from `source_ip` to `target` (`host:port`)
    /// is allowed: the first matching rule decides, and Deny is the default.
    pub fn evaluate(&self, source_ip: &str, target: &str) -> (r: ACLAction)
        ensures
            r == acl_decision(self.acl@, source_ip@, target@),
    {
        let (target_host, target_port) = match Self::parse_target(target) {
            Ok(hp) => hp,
            Err(_) => return ACLAction::Deny,
        };
        let source_ip_addr = match parse_ip(source_ip) {
            Some(a) => a,
            None => return ACLAction::Deny,
        };
        let ghost host = target_host@;
        let mut i: usize = 0;
        while i < self.acl.len()
            invariant
                i <= self.acl@.len(),
                host == target_host@,
                target_parts(target@) == Some((host, target_port)),
                ip_addr_from_text(source_ip@) == Some(source_ip_addr),
                forall|j: int|
                    0 <= j < i ==> !rule_matches(
                        #[trigger] self.acl@[j],
                        source_ip_addr,
                        host,
                        target_port,
                    ),
            decreases self.acl@.len() - i,
        {
            if Self::matches_rule(&self.acl[i], &source_ip_addr, target_host.as_str(), target_port) {
                proof {
                    law_first_matching_rule_decides(self.acl@, i as int, source_ip_addr, host, target_port);
                }
                return self.acl[i].action;
            }
            i = i + 1;
        }
        proof {
            law_no_matching_rule_denies(self.acl@, source_ip_addr, host, target_port);
        }
        ACLAction::Deny
    }

    /// Splits `host:port` at the last `:`; the port must be a `u16` numeral.
    pub fn parse_target(target: &str) -> (r: Result<(String, u16), TargetError>)
        ensures
            match (r, target_parts(target@)) {
                (Ok((h, p)), Some((hs, ps))) => h@ == hs && p == ps,
                (Err(TargetError::MissingPort), None) => last_index_of(target@, ':') is None,
                (Err(TargetError::InvalidPort), None) => last_index_of(target@, ':') is Some,
                _ => false,
            },
    {
        let v = chars_of(target);
        match find_last(&v, ':') {
            None => Err(TargetError::MissingPort),
            Some(k) => match parse_u16(&v, k + 1, v.len()) {
                Some(port) => {
                    let host = string_from_range(&v, 0, k);
                    Ok((host, port))
                },
                None => Err(TargetError::InvalidPort),
            },
        }
    }

    /// Whether `rule` applies to a connection from `source_ip` to
    /// `target_host:target_port`.
    pub fn matches_rule(rule: &ACLRule, source_ip: &IpValue, target_host: &str, target_port: u16) -> (r: bool)
        ensures
            r == rule_matches(*rule, *source_ip, target_host@, target_port),
    {
        let matches_from = Self::some_source_matches(rule, source_ip);
        if !matches_from {
            return false;
        }
        let matches_host = Self::some_host_matches(rule, target_host);
        if !matches_host {
            return false;
        }
        Self::some_port_matches(rule, target_port)
    }

    fn some_source_matches(rule: &ACLRule, source_ip: &IpValue) -> (r: bool)
        ensures
            r == exists|i: int| 0 <= i < rule.from@.len() && cidr_matches(#[trigger] rule.from@[i]@, *source_ip),
    {
        let mut i: usize = 0;
        while i < rule.from.len()
            invariant
                i <= rule.from@.len(),
                forall|j: int| 0 <= j < i ==> !cidr_matches(#[trigger] rule.from@[j]@, *source_ip),
            decreases rule.from@.len() - i,
        {
            if Self::ip_matches_cidr(source_ip, rule.from[i].as_str()) {
                return true;
            }
            i = i + 1;
        }
        false
    }

    fn some_host_matches(rule: &ACLRule, target_host: &str) -> (r: bool)
        ensures
            r == exists|i: int|
                0 <= i < rule.to.hosts@.len() && host_pattern_matches(#[trigger] rule.to.hosts@[i]@, target_host@),
    {
        let mut i: usize = 0;
        while i < rule.to.hosts.len()
            invariant
                i <= rule.to.hosts@.len(),
                forall|j: int|
                    0 <= j < i ==> !host_pattern_matches(#[trigger] rule.to.hosts@[j]@, target_host@),
            decreases rule.to.hosts@.len() - i,
        {
            if Self::host_matches_pattern(target_host, rule.to.hosts[i].as_str()) {
                return true;
            }
            i = i + 1;
        }
        false
    }

    fn some_port_matches(rule: &ACLRule, target_port: u16) -> (r: bool)
        ensures
            r == exists|i: int|
                0 <= i < rule.to.ports@.len() && port_entry_matches(#[trigger] rule.to.ports@[i], target_port),
    {
        let mut i: usize = 0;
        while i < rule.to.ports.len()
            invariant
                i <= rule.to.ports@.len(),
                forall|j: int| 0 <= j < i ==> !port_entry_matches(#[trigger] rule.to.ports@[j], target_port),
            decreases rule.to.ports@.len() - i,
        {
            let hit = match rule.to.ports[i] {
                PortEntry::SinglePort(p) => p == target_port,
                PortEntry::PortRange(start, end) => target_port >= start && target_port <= end,
            };
            if hit {
                return true;
            }
            i = i + 1;
        }
        false
    }

    /// Whether `ip` lies in the network (or is the address) written in `cidr_str`.
    pub fn ip_matches_cidr(ip: &IpValue, cidr_str: &str) -> (r: bool)
        ensures
            r == cidr_matches(cidr_str@, *ip),
    {
        let v = chars_of(cidr_str);
        if find_first(&v, '/').is_none() {
            match parse_ip(cidr_str) {
                Some(addr) => {
                    if addr == *ip {
                        return true;
                    }
                    let net = match addr {
                        IpValue::V4(a) => NetValue::V4(a, 32),
                        IpValue::V6(a) => NetValue::V6(a, 128),
                    };
                    network_contains(&net, ip)
                },
                None => false,
            }
        } else {
            match parse_ip_net(cidr_str) {
                Some(net) => network_contains(&net, ip),
                None => false,
            }
        }
    }

    /// Whether `host` matches the case-insensitive regular expression `pattern`.
    pub fn host_matches_pattern(host: &str, pattern: &str) -> (r: bool)
        ensures
            r == host_pattern_matches(pattern@, host@),
    {
        match build_case_insensitive(pattern) {
            Some(re) => regex_is_match(&re, host),
            None => false,
        }
    }
}

// ---------------------------------------------------------------------------
// Rule order

/// `a` is evaluated before `b`: higher priority first, then earlier in the file.
pub open spec fn rule_precedes(a: ACLRule, b: ACLRule) -> bool {
    a.priority > b.priority || (a.priority == b.priority && a.index < b.index)
}

/// `r` with its position set to `i`.
pub open spec fn with_index(r: ACLRule, i: usize) -> ACLRule {
    ACLRule { index: i, priority: r.priority, action: r.action, from: r.from, to: r.to }
}

/// Some rule of `rules` is numbered `x`.
pub open spec fn holds_position(rules: Seq<ACLRule>, x: int) -> bool {
    exists|k: int| 0 <= k < rules.len() && #[trigger] rules[k].index == x
}

/// `output` holds each rule of `input` exactly once, numbered by its position
/// in `input`, in evaluation order: by priority, high to low, and by position
/// among equal priorities.
pub open spec fn is_arranged_from(input: Seq<ACLRule>, output: Seq<ACLRule>) -> bool {
    &&& output.len() == input.len()
    &&& forall|k: int|
        0 <= k < output.len() ==> (#[trigger] output[k]).index < input.len() && output[k] == with_index(
            input[output[k].index as int],
            output[k].index,
        )
    &&& forall|x: int| 0 <= x < input.len() ==> #[trigger] holds_position(output, x)
    &&& forall|j: int, k: int| 0 <= j < k < output.len() ==> rule_precedes(#[trigger] output[j], #[trigger] output[k])
}

/// Numbers the rules of a freshly read file by position and arranges them in
/// evaluation order (priority high to low, then file order).
pub fn arrange_rules(acl_file: ACLFile) -> (r: ACLFile)
    ensures
        is_arranged_from(acl_file.acl@, r.acl@),
{
    let ghost input = acl_file.acl@;
    let mut rules = acl_file.acl;
    let n = rules.len();
    let mut out: Vec<ACLRule> = Vec::new();
    let mut i: usize = n;
    while i > 0
        invariant
            i <= n == input.len(),
            rules@ == input.subrange(0, i as int),
            out@.len() == n - i,
            forall|k: int|
                0 <= k < out@.len() ==> i <= (#[trigger] out@[k]).index < n && out@[k] == with_index(
                    input[out@[k].index as int],
                    out@[k].index,
                ),
            forall|x: int| i <= x < n ==> #[trigger] holds_position(out@, x),
            forall|j: int, k: int| 0 <= j < k < out@.len() ==> rule_precedes(#[trigger] out@[j], #[trigger] out@[k]),
        decreases i,
    {
        let ghost old_out = out@;
        let mut r = rules.pop().unwrap();
        i = i - 1;
        assert(r == input[i as int]);
        r.index = i;
        assert(r == with_index(input[i as int], i));
        let mut p: usize = 0;
        while p < out.len() && out[p].priority > r.priority
            invariant
                p <= out@.len(),
                out@ == old_out,
                forall|q: int| 0 <= q < p ==> (#[trigger] out@[q]).priority > r.priority,
            decreases out@.len() - p,
        {
            p = p + 1;
        }
        let ghost rr = r;
        out.insert(p, r);
        proof {
            assert(out@ == old_out.insert(p as int, rr));
            assert forall|k: int| 0 <= k < out@.len() implies i <= (#[trigger] out@[k]).index < n && out@[k]
                == with_index(input[out@[k].index as int], out@[k].index) by {
                if k < p {
                    assert(out@[k] == old_out[k]);
                } else if k > p {
                    assert(out@[k] == old_out[k - 1]);
                }
            }
            assert forall|x: int| i <= x < n implies #[trigger] holds_position(out@, x) by {
                if x == i {
                    assert(out@[p as int].index == x);
                } else {
                    assert(holds_position(old_out, x));
                    let k0 = choose|k: int| 0 <= k < old_out.len() && #[trigger] old_out[k].index == x;
                    if k0 < p {
                        assert(out@[k0].index == x);
                    } else {
                        assert(out@[k0 + 1].index == x);
                    }
                }
            }
            assert forall|j: int, k: int| 0 <= j < k < out@.len() implies rule_precedes(#[trigger] out@[j], #[trigger] out@[k]) by {
                if k < p {
                    assert(out@[j] == old_out[j] && out@[k] == old_out[k]);
                } else if k == p {
                    assert(out@[j] == old_out[j]);
                } else if j == p {
                    assert(out@[k] == old_out[k - 1]);
                    assert(old_out[k - 1].index > i);
                    if p < old_out.len() {
                        if k - 1 > p {
                            assert(rule_precedes(old_out[p as int], old_out[k - 1]));
                        }
                        assert(old_out[p as int].priority <= rr.priority);
                    }
                } else if j < p {
                    assert(out@[j] == old_out[j] && out@[k] == old_out[k - 1]);
                } else {
                    assert(out@[j] == old_out[j - 1] && out@[k] == old_out[k - 1]);
                }
            }
        }
    }
    ACLFile { acl: out }
}

/// Whether a rule matches does not depend on its position.
pub proof fn lemma_matches_ignores_index(r: ACLRule, i: usize, ip: IpValue, host: Seq<char>, port: u16)
    ensures
        rule_matches(with_index(r, i), ip, host, port) == rule_matches(r, ip, host, port),
{
    assert(with_index(r, i).from == r.from);
    assert(with_index(r, i).to == r.to);
}

/// After `arrange_rules`, a connection matched by some rule is decided by the
/// matching rule of highest priority, and among equal priorities by the one
/// written first in the file.
pub proof fn law_highest_priority_then_first_written_decides(
    input: Seq<ACLRule>,
    arranged: Seq<ACLRule>,
    ip: IpValue,
    host: Seq<char>,
    port: u16,
    k: int,
)
    requires
        is_arranged_from(input, arranged),
        0 <= k < input.len(),
        rule_matches(input[k], ip, host, port),
        forall|j: int|
            0 <= j < input.len() && j != k && rule_matches(#[trigger] input[j], ip, host, port) ==> input[j].priority
                < input[k].priority || (input[j].priority == input[k].priority && k < j),
    ensures
        first_match_action(arranged, ip, host, port) == input[k].action,
{
    assert(holds_position(arranged, k));
    let m = choose|m: int| 0 <= m < arranged.len() && #[trigger] arranged[m].index == k;
    assert(arranged[m] == with_index(input[k], k as usize));
    lemma_matches_ignores_index(input[k], k as usize, ip, host, port);
    assert forall|j: int| 0 <= j < m implies !rule_matches(#[trigger] arranged[j], ip, host, port) by {
        assert(rule_precedes(arranged[j], arranged[m]));
        let x = arranged[j].index as int;
        assert(arranged[j] == with_index(input[x], arranged[j].index));
        if rule_matches(arranged[j], ip, host, port) {
            assert(rule_matches(input[x], ip, host, port));
            assert(x != k);
        }
    }
    law_first_matching_rule_decides(arranged, m, ip, host, port);
}

/// After `arrange_rules`, a connection that no rule matches is denied.
pub proof fn law_arranged_no_match_denies(
    input: Seq<ACLRule>,
    arranged: Seq<ACLRule>,
    ip: IpValue,
    host: Seq<char>,
    port: u16,
)
    requires
        is_arranged_from(input, arranged),
        forall|j: int| 0 <= j < input.len() ==> !rule_matches(#[trigger] input[j], ip, host, port),
    ensures
        first_match_action(arranged, ip, host, port) == ACLAction::Deny,
{
    assert forall|j: int| 0 <= j < arranged.len() implies !rule_matches(#[trigger] arranged[j], ip, host, port) by {
        let x = arranged[j].index as int;
        assert(arranged[j] == with_index(input[x], arranged[j].index));
        if rule_matches(arranged[j], ip, host, port) {
            assert(rule_matches(input[x], ip, host, port));
        }
    }
    law_no_matching_rule_denies(arranged, ip, host, port);
}

/// Whether a rule applies to a connection from `source_ip` to `target`
/// (false when either does not parse).
pub open spec fn rule_applies(rule: ACLRule, source_ip: Seq<char>, target: Seq<char>) -> bool {
    match (target_parts(target), ip_addr_from_text(source_ip)) {
        (Some((host, port)), Some(ip)) => rule_matches(rule, ip, host, port),
        _ => false,
    }
}

/// The rules of a file, once arranged, allow or deny a connection as the
/// applicable rule of highest priority says, the one written first among
/// equal priorities.
pub proof fn law_arranged_list_decides_by_priority(
    input: Seq<ACLRule>,
    arranged: Seq<ACLRule>,
    source_ip: Seq<char>,
    target: Seq<char>,
    k: int,
)
    requires
        is_arranged_from(input, arranged),
        0 <= k < input.len(),
        rule_applies(input[k], source_ip, target),
        forall|j: int|
            0 <= j < input.len() && j != k && rule_applies(#[trigger] input[j], source_ip, target) ==> input[j].priority
                < input[k].priority || (input[j].priority == input[k].priority && k < j),
    ensures
        acl_decision(arranged, source_ip, target) == input[k].action,
{
    let (host, port) = target_parts(target)->0;
    let ip = ip_addr_from_text(source_ip)->0;
    law_highest_priority_then_first_written_decides(input, arranged, ip, host, port, k);
}

/// When no rule of a file applies to a connection, the arranged list denies it.
pub proof fn law_arranged_list_default_deny(
    input: Seq<ACLRule>,
    arranged: Seq<ACLRule>,
    source_ip: Seq<char>,
    target: Seq<char>,
)
    requires
        is_arranged_from(input, arranged),
        forall|j: int| 0 <= j < input.len() ==> !rule_applies(#[trigger] input[j], source_ip, target),
    ensures
        acl_decision(arranged, source_ip, target) == ACLAction::Deny,
{
    if target_parts(target) is Some && ip_addr_from_text(source_ip) is Some {
        let (host, port) = target_parts(target)->0;
        let ip = ip_addr_from_text(source_ip)->0;
        assert forall|j: int| 0 <= j < input.len() implies !rule_matches(#[trigger] input[j], ip, host, port) by {
            assert(!rule_applies(input[j], source_ip, target));
        }
        law_arranged_no_match_denies(input, arranged, ip, host, port);
    }
}

// ---------------------------------------------------------------------------
// Reading actions and port entries

/// Why a text is not an action.
#[derive(Clone, Copy, Debug, PartialEq, Eq, Structural)]
pub enum ActionError {
    /// Neither `allow` nor `deny`, in any case.
    UnknownAction,
}

/// Why a value is not a port entry.
#[derive(Clone, Copy, Debug, PartialEq, Eq, Structural)]
pub enum PortEntryError {
    /// A number outside `0..=65535`.
    OutOfRange,
    /// The part before `-` is not a port number.
    InvalidStart,
    /// The part after `-` is not a port number.
    InvalidEnd,
    /// The range ends below its start.
    EndBeforeStart,
    /// Neither a port number nor a range.
    NotAPortEntry,
}

/// The word for an action.
pub open spec fn action_word(a: ACLAction) -> Seq<char> {
    match a {
        ACLAction::Allow => "allow"@,
        ACLAction::Deny => "deny"@,
    }
}

/// An action read from text: `allow` or `deny`, compared after lower-casing.
pub open spec fn action_from_text(s: Seq<char>) -> Result<ACLAction, ActionError> {
    if lowercase_text(s) == "allow"@ {
        Ok(ACLAction::Allow)
    } else if lowercase_text(s) == "deny"@ {
        Ok(ACLAction::Deny)
    } else {
        Err(ActionError::UnknownAction)
    }
}

/// A port entry read from text: a port number, or `start-end` (each side
/// trimmed of white space) with `end >= start`.
pub open spec fn port_entry_from_text(s: Seq<char>) -> Result<PortEntry, PortEntryError> {
    match parse_u16_spec(s) {
        Some(p) => Ok(PortEntry::SinglePort(p)),
        None => match first_index_of(s, '-') {
            None => Err(PortEntryError::NotAPortEntry),
            Some(d) => match parse_u16_spec(trim(s.subrange(0, d))) {
                None => Err(PortEntryError::InvalidStart),
                Some(start) => match parse_u16_spec(trim(s.subrange(d + 1, s.len() as int))) {
                    None => Err(PortEntryError::InvalidEnd),
                    Some(end) => if end < start {
                        Err(PortEntryError::EndBeforeStart)
                    } else {
                        Ok(PortEntry::PortRange(start, end))
                    },
                },
            },
        },
    }
}

/// The text of a port range: `start-end`.
pub open spec fn port_range_text(start: u16, end: u16) -> Seq<char> {
    decimal_text(start as nat) + "-"@ + decimal_text(end as nat)
}

impl ACLAction {
    /// Reads an action: `allow` or `deny`, in any case.
    pub fn parse(value: &str) -> (r: Result<ACLAction, ActionError>)
        ensures
            r == action_from_text(value@),
    {
        let lower = to_lowercase(value);
        if lower == owned("allow") {
            Ok(ACLAction::Allow)
        } else if lower == owned("deny") {
            Ok(ACLAction::Deny)
        } else {
            Err(ActionError::UnknownAction)
        }
    }

    /// The word for this action.
    pub fn word(&self) -> (r: &'static str)
        ensures
            r@ == action_word(*self),
    {
        match self {
            ACLAction::Allow => "allow",
            ACLAction::Deny => "deny",
        }
    }
}

impl PortEntry {
    /// Reads a port entry from text.
    pub fn parse(value: &str) -> (r: Result<PortEntry, PortEntryError>)
        ensures
            r == port_entry_from_text(value@),
    {
        let v = chars_of(value);
        assert(v@.subrange(0, v@.len() as int) =~= v@);
        if let Some(port) = parse_u16(&v, 0, v.len()) {
            return Ok(PortEntry::SinglePort(port));
        }
        match find_first(&v, '-') {
            None => Err(PortEntryError::NotAPortEntry),
            Some(d) => {
                let (a, b) = trim_bounds(&v, 0, d);
                let (c, e) = trim_bounds(&v, d + 1, v.len());
                let start = match parse_u16(&v, a, b) {
                    Some(x) => x,
                    None => return Err(PortEntryError::InvalidStart),
                };
                let end = match parse_u16(&v, c, e) {
                    Some(x) => x,
                    None => return Err(PortEntryError::InvalidEnd),
                };
                if end < start {
                    return Err(PortEntryError::EndBeforeStart);
                }
                Ok(PortEntry::PortRange(start, end))
            },
        }
    }

    /// A port entry from a whole number: a single port when it fits in `u16`.
    pub fn from_u64(value: u64) -> (r: Result<PortEntry, PortEntryError>)
        ensures
            value <= u16::MAX ==> r == Ok::<PortEntry, PortEntryError>(PortEntry::SinglePort(value as u16)),
            value > u16::MAX ==> r == Err::<PortEntry, PortEntryError>(PortEntryError::OutOfRange),
    {
        if value > 65535 {
            return Err(PortEntryError::OutOfRange);
        }
        Ok(PortEntry::SinglePort(value as u16))
    }

    /// A port entry from a signed whole number: a single port when it is in `0..=65535`.
    pub fn from_i64(value: i64) -> (r: Result<PortEntry, PortEntryError>)
        ensures
            0 <= value <= u16::MAX ==> r == Ok::<PortEntry, PortEntryError>(PortEntry::SinglePort(value as u16)),
            (value < 0 || value > u16::MAX) ==> r == Err::<PortEntry, PortEntryError>(PortEntryError::OutOfRange),
    {
        if value < 0 || value > 65535 {
            return Err(PortEntryError::OutOfRange);
        }
        Ok(PortEntry::SinglePort(value as u16))
    }

    /// The text of a port range, `start-end`.
    pub fn range_text(start: u16, end: u16) -> (r: String)
        ensures
            r@ == port_range_text(start, end),
    {
        let mut out = String::new();
        push_decimal(&mut out, start as u64);
        push_str(&mut out, "-");
        push_decimal(&mut out, end as u64);
        assert(out@ =~= port_range_text(start, end));
        out
    }
}

/// The text of a port reads back as that port.
pub proof fn law_single_port_text_roundtrip(port: u16)
    ensures
        port_entry_from_text(decimal_text(port as nat)) == Ok::<PortEntry, PortEntryError>(PortEntry::SinglePort(port)),
{
    lemma_parse_u16_text(port);
}

proof fn lemma_trim_digits(s: Seq<char>)
    requires
        s.len() > 0,
        all_digits(s),
    ensures
        trim(s) == s,
{
    assert(is_digit(s[0]));
    assert(trim_start(s) == s);
    assert(is_digit(s[s.len() - 1]));
    assert(trim_end(s) == s);
}

/// The text of a port range reads back as that range.
pub proof fn law_port_range_text_roundtrip(start: u16, end: u16)
    requires
        start <= end,
    ensures
        port_entry_from_text(port_range_text(start, end)) == Ok::<PortEntry, PortEntryError>(
            PortEntry::PortRange(start, end),
        ),
{
    reveal_strlit("-");
    let a = decimal_text(start as nat);
    let b = decimal_text(end as nat);
    lemma_decimal_text(start as nat);
    lemma_decimal_text(end as nat);
    let s = port_range_text(start, end);
    assert(s =~= a + seq!['-'] + b);
    let d = a.len() as int;
    assert(s[d] == '-');
    assert(s[0] == a[0]);
    assert(is_digit(a[0]));
    assert(!all_digits(s)) by {
        assert(!is_digit(s[d]));
    }
    assert(parse_unsigned(s) is None);
    assert forall|j: int| 0 <= j < d implies s[j] != '-' by {
        assert(s[j] == a[j]);
        assert(is_digit(a[j]));
    }
    lemma_first_index_unique(s, '-', d);
    assert(s.subrange(0, d) =~= a);
    assert(s.subrange(d + 1, s.len() as int) =~= b);
    lemma_trim_digits(a);
    lemma_trim_digits(b);
    lemma_parse_u16_text(start);
    lemma_parse_u16_text(end);
}

// ---------------------------------------------------------------------------
// HCL text

/// One quoted item per line: `indent` (which ends with the opening quote),
/// the item, then `",` and a new line.
pub open spec fn quoted_items_text(items: Seq<String>, indent: Seq<char>) -> Seq<char>
    decreases items.len(),
{
    if items.len() == 0 {
        Seq::empty()
    } else {
        quoted_items_text(items.drop_last(), indent) + indent + items.last()@ + "\",\n"@
    }
}

/// The line of one port entry: a number followed by a comma, or a quoted range.
pub open spec fn port_line_text(entry: PortEntry) -> Seq<char> {
    match entry {
        PortEntry::SinglePort(p) => "      "@ + decimal_text(p as nat) + ",\n"@,
        PortEntry::PortRange(start, end) => "      \""@ + decimal_text(start as nat) + "-"@
            + decimal_text(end as nat) + "\"\n"@,
    }
}

pub open spec fn port_lines_text(ports: Seq<PortEntry>) -> Seq<char>
    decreases ports.len(),
{
    if ports.len() == 0 {
        Seq::empty()
    } else {
        port_lines_text(ports.drop_last()) + port_line_text(ports.last())
    }
}

/// The priority line, written only for a priority other than 0.
pub open spec fn priority_text(priority: i32) -> Seq<char> {
    if priority != 0 {
        "  priority = "@ + signed_decimal_text(priority as int) + "\n"@
    } else {
        Seq::empty()
    }
}

/// The opening line, the priority line and the action line of a rule.
pub open spec fn rule_head_text(r: ACLRule) -> Seq<char> {
    "acl {\n"@ + priority_text(r.priority) + "  action = \""@ + action_word(r.action) + "\"\n"@
}

/// The `from` list of a rule.
pub open spec fn rule_from_text(r: ACLRule) -> Seq<char> {
    "  from = [\n"@ + quoted_items_text(r.from@, "    \""@) + "  ]\n"@
}

/// The `to` block of a rule and the closing brace.
pub open spec fn rule_to_text(r: ACLRule) -> Seq<char> {
    "  to {\n"@ + "    hosts = [\n"@ + quoted_items_text(r.to.hosts@, "      \""@) + "    ]\n"@
        + "    ports = [\n"@ + port_lines_text(r.to.ports@) + "    ]\n"@ + "  }\n"@ + "}\n\n"@
}

/// The `acl { ... }` block of one rule.
pub open spec fn rule_hcl_text(r: ACLRule) -> Seq<char> {
    rule_head_text(r) + rule_from_text(r) + rule_to_text(r)
}

/// The blocks of all rules, in order.
pub open spec fn acl_hcl_text(rules: Seq<ACLRule>) -> Seq<char>
    decreases rules.len(),
{
    if rules.len() == 0 {
        Seq::empty()
    } else {
        acl_hcl_text(rules.drop_last()) + rule_hcl_text(rules.last())
    }
}

proof fn lemma_quoted_items_append(a: Seq<String>, b: Seq<String>, indent: Seq<char>)
    ensures
        quoted_items_text(a + b, indent) == quoted_items_text(a, indent) + quoted_items_text(b, indent),
    decreases b.len(),
{
    if b.len() == 0 {
        assert(a + b =~= a);
        assert(quoted_items_text(a, indent) + quoted_items_text(b, indent) =~= quoted_items_text(a, indent));
    } else {
        lemma_quoted_items_append(a, b.drop_last(), indent);
        assert((a + b).drop_last() =~= a + b.drop_last());
        assert((a + b).last() == b.last());
        assert(quoted_items_text(a + b, indent) =~= quoted_items_text(a, indent) + quoted_items_text(b, indent));
    }
}

/// Item `i` is written on its own line, after the lines of the items before it.
proof fn lemma_quoted_item_at(items: Seq<String>, indent: Seq<char>, i: int)
    requires
        0 <= i < items.len(),
    ensures
        occurs_at(
            quoted_items_text(items, indent),
            indent + items[i]@ + "\",\n"@,
            quoted_items_text(items.take(i), indent).len() as int,
        ),
{
    let a = items.take(i);
    let one = seq![items[i]];
    let c = items.skip(i + 1);
    assert(items =~= a + (one + c));
    lemma_quoted_items_append(a, one + c, indent);
    lemma_quoted_items_append(one, c, indent);
    assert(one.drop_last() =~= Seq::<String>::empty());
    assert(quoted_items_text(one.drop_last(), indent) == Seq::<char>::empty());
    assert(one.last() == items[i]);
    let line = indent + items[i]@ + "\",\n"@;
    assert(quoted_items_text(one, indent) =~= line);
    let q = quoted_items_text(items, indent);
    let qa = quoted_items_text(a, indent);
    assert(q =~= qa + line + quoted_items_text(c, indent));
    assert(q.subrange(qa.len() as int, (qa.len() + line.len()) as int) =~= line);
}

/// A part found in `middle` is found at the same place shifted by `before`.
proof fn lemma_occurs_within(before: Seq<char>, middle: Seq<char>, after: Seq<char>, part: Seq<char>, k: int)
    requires
        occurs_at(middle, part, k),
    ensures
        occurs_at(before + middle + after, part, before.len() + k),
{
    let t = before + middle + after;
    assert(t.subrange(before.len() + k, before.len() + k + part.len()) =~= middle.subrange(k, k + part.len()));
}

/// The line that writes one source of a rule.
pub open spec fn source_line(source: Seq<char>) -> Seq<char> {
    "    \""@ + source + "\",\n"@
}

/// Every source of a rule is written, each on a line of its own, in the
/// rule's HCL block, and in the order of the rule's list.
pub proof fn law_rule_sources_written_in_order(r: ACLRule, i: int, j: int)
    requires
        0 <= i <= j < r.from@.len(),
    ensures
        exists|ki: int, kj: int|
            #![trigger occurs_at(rule_hcl_text(r), source_line(r.from@[i]@), ki), occurs_at(rule_hcl_text(r), source_line(r.from@[j]@), kj)]
            occurs_at(rule_hcl_text(r), source_line(r.from@[i]@), ki)
                && occurs_at(rule_hcl_text(r), source_line(r.from@[j]@), kj)
                && (i < j ==> ki + source_line(r.from@[i]@).len() <= kj),
{
    let items = r.from@;
    let indent = "    \""@;
    let q = quoted_items_text(items, indent);
    let before = rule_head_text(r) + "  from = [\n"@;
    let after = "  ]\n"@ + rule_to_text(r);
    let text = rule_hcl_text(r);
    assert(text =~= before + q + after);
    let qi = quoted_items_text(items.take(i), indent).len() as int;
    let qj = quoted_items_text(items.take(j), indent).len() as int;
    lemma_quoted_item_at(items, indent, i);
    lemma_quoted_item_at(items, indent, j);
    assert(indent + items[i]@ + "\",\n"@ == source_line(items[i]@));
    assert(indent + items[j]@ + "\",\n"@ == source_line(items[j]@));
    lemma_occurs_within(before, q, after, source_line(items[i]@), qi);
    lemma_occurs_within(before, q, after, source_line(items[j]@), qj);
    if i < j {
        let pre = items.take(j);
        lemma_quoted_item_at(pre, indent, i);
        assert(pre.take(i) =~= items.take(i));
        assert(pre[i] == items[i]);
    }
    let ki = before.len() + qi;
    let kj = before.len() + qj;
    assert(occurs_at(text, source_line(items[i]@), ki) && occurs_at(text, source_line(items[j]@), kj));
}

fn push_quoted_items(out: &mut String, items: &Vec<String>, indent: &str)
    ensures
        final(out)@ == old(out)@ + quoted_items_text(items@, indent@),
{
    let ghost start = out@;
    let mut i: usize = 0;
    while i < items.len()
        invariant
            i <= items@.len(),
            out@ == start + quoted_items_text(items@.subrange(0, i as int), indent@),
        decreases items@.len() - i,
    {
        push_str(out, indent);
        push_str(out, items[i].as_str());
        push_str(out, "\",\n");
        assert(items@.subrange(0, i + 1).drop_last() =~= items@.subrange(0, i as int));
        i = i + 1;
        assert(out@ =~= start + quoted_items_text(items@.subrange(0, i as int), indent@));
    }
    assert(items@.subrange(0, items@.len() as int) =~= items@);
}

fn push_port_lines(out: &mut String, ports: &Vec<PortEntry>)
    ensures
        final(out)@ == old(out)@ + port_lines_text(ports@),
{
    let ghost start = out@;
    let mut i: usize = 0;
    while i < ports.len()
        invariant
            i <= ports@.len(),
            out@ == start + port_lines_text(ports@.subrange(0, i as int)),
        decreases ports@.len() - i,
    {
        let ghost before = out@;
        match ports[i] {
            PortEntry::SinglePort(p) => {
                push_str(out, "      ");
                push_decimal(out, p as u64);
                push_str(out, ",\n");
            },
            PortEntry::PortRange(start_port, end_port) => {
                push_str(out, "      \"");
                push_decimal(out, start_port as u64);
                push_str(out, "-");
                push_decimal(out, end_port as u64);
                push_str(out, "\"\n");
            },
        }
        assert(out@ =~= before + port_line_text(ports@[i as int]));
        assert(ports@.subrange(0, i + 1).drop_last() =~= ports@.subrange(0, i as int));
        i = i + 1;
        assert(out@ =~= start + port_lines_text(ports@.subrange(0, i as int)));
    }
    assert(ports@.subrange(0, ports@.len() as int) =~= ports@);
}

fn push_rule_head(out: &mut String, rule: &ACLRule)
    ensures
        final(out)@ == old(out)@ + rule_head_text(*rule),
{
    let ghost start = out@;
    push_str(out, "acl {\n");
    if rule.priority != 0 {
        push_str(out, "  priority = ");
        push_signed_decimal(out, rule.priority as i64);
        push_str(out, "\n");
    }
    assert(out@ =~= start + "acl {\n"@ + priority_text(rule.priority));
    let ghost s1 = out@;
    push_str(out, "  action = \"");
    push_str(out, rule.action.word());
    push_str(out, "\"\n");
    assert(out@ =~= s1 + "  action = \""@ + action_word(rule.action) + "\"\n"@);
    assert(out@ =~= start + rule_head_text(*rule));
}

fn push_rule_from(out: &mut String, rule: &ACLRule)
    ensures
        final(out)@ == old(out)@ + rule_from_text(*rule),
{
    let ghost start = out@;
    push_str(out, "  from = [\n");
    push_quoted_items(out, &rule.from, "    \"");
    push_str(out, "  ]\n");
    assert(out@ =~= start + rule_from_text(*rule));
}

fn push_rule_to(out: &mut String, rule: &ACLRule)
    ensures
        final(out)@ == old(out)@ + rule_to_text(*rule),
{
    let ghost start = out@;
    push_str(out, "  to {\n");
    push_str(out, "    hosts = [\n");
    push_quoted_items(out, &rule.to.hosts, "      \"");
    push_str(out, "    ]\n");
    let ghost s1 = out@;
    assert(s1 =~= start + "  to {\n"@ + "    hosts = [\n"@ + quoted_items_text(rule.to.hosts@, "      \""@)
        + "    ]\n"@);
    push_str(out, "    ports = [\n");
    push_port_lines(out, &rule.to.ports);
    push_str(out, "    ]\n");
    push_str(out, "  }\n");
    push_str(out, "}\n\n");
    assert(out@ =~= s1 + "    ports = [\n"@ + port_lines_text(rule.to.ports@) + "    ]\n"@ + "  }\n"@
        + "}\n\n"@);
    assert(out@ =~= start + rule_to_text(*rule));
}

fn push_rule_hcl(out: &mut String, rule: &ACLRule)
    ensures
        final(out)@ == old(out)@ + rule_hcl_text(*rule),
{
    let ghost start = out@;
    push_rule_head(out, rule);
    push_rule_from(out, rule);
    push_rule_to(out, rule);
    assert(out@ =~= start + rule_hcl_text(*rule));
}

/// Writes the rules as HCL `acl { ... }` blocks, in order.
pub fn serialize_acl_to_hcl(acl_file: &ACLFile) -> (r: String)
    ensures
        r@ == acl_hcl_text(acl_file.acl@),
{
    let mut output = String::new();
    let mut i: usize = 0;
    while i < acl_file.acl.len()
        invariant
            i <= acl_file.acl@.len(),
            output@ == acl_hcl_text(acl_file.acl@.subrange(0, i as int)),
        decreases acl_file.acl@.len() - i,
    {
        push_rule_hcl(&mut output, &acl_file.acl[i]);
        assert(acl_file.acl@.subrange(0, i + 1).drop_last() =~= acl_file.acl@.subrange(0, i as int));
        i = i + 1;
    }
    assert(acl_file.acl@.subrange(0, acl_file.acl@.len() as int) =~= acl_file.acl@);
    output
}

// ---------------------------------------------------------------------------
// Checking a request against the configured list

/// Whether a connection is allowed: always without a list, otherwise when
/// the list's decision is Allow.
pub open spec fn acl_permits(acl: Option<ACLFile>, source_ip: Seq<char>, target: Seq<char>) -> bool {
    match acl {
        None => true,
        Some(file) => acl_decision(file.acl@, source_ip, target) == ACLAction::Allow,
    }
}

/// Checks a connection from `source_ip` to `target` against the configured
/// list, if any.
pub fn is_acl_allowed(acl: Option<&ACLFile>, source_ip: &str, target: &str) -> (r: bool)
    ensures
        r == acl_permits(
            match acl {
                Some(a) => Some(*a),
                None => None,
            },
            source_ip@,
            target@,
        ),
{
    match acl {
        None => true,
        Some(file) => match file.evaluate(source_ip, target) {
            ACLAction::Allow => true,
            ACLAction::Deny => false,
        },
    }
}

} // verus!
