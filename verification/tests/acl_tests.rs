use portal::aclutil::{
    arrange_rules, default_priority, is_acl_allowed, serialize_acl_to_hcl, ACLAction, ACLFile, ACLRule, ACLTarget,
    ActionError, PortEntry, PortEntryError, TargetError,
};
use portal::netaddr::{IpValue, NetValue};

fn strings(items: &[&str]) -> Vec<String> {
    items.iter().map(|s| s.to_string()).collect()
}

fn rule(priority: i32, action: ACLAction, from: &[&str], hosts: &[&str], ports: Vec<PortEntry>) -> ACLRule {
    ACLRule {
        index: 0,
        priority,
        action,
        from: strings(from),
        to: ACLTarget { hosts: strings(hosts), ports },
    }
}

fn readme_rule() -> ACLRule {
    rule(
        50,
        ACLAction::Allow,
        &["0.0.0.0/0"],
        &["somehost.*", ".*.google.com"],
        vec![PortEntry::SinglePort(22), PortEntry::PortRange(1000, 2000), PortEntry::PortRange(3000, 4500)],
    )
}

#[test]
fn readme_example_allows_listed_hosts_and_ports() {
    let acl = arrange_rules(ACLFile { acl: vec![readme_rule()] });
    assert_eq!(acl.evaluate("10.1.2.3", "www.google.com:22"), ACLAction::Allow);
    assert_eq!(acl.evaluate("10.1.2.3", "somehost.example:1500"), ACLAction::Allow);
    assert_eq!(acl.evaluate("10.1.2.3", "somehost.example:4500"), ACLAction::Allow);
    assert_eq!(acl.evaluate("10.1.2.3", "somehost.example:3000"), ACLAction::Allow);
}

#[test]
fn readme_example_denies_other_ports_and_hosts() {
    let acl = arrange_rules(ACLFile { acl: vec![readme_rule()] });
    assert_eq!(acl.evaluate("10.1.2.3", "www.google.com:23"), ACLAction::Deny);
    assert_eq!(acl.evaluate("10.1.2.3", "www.google.com:2001"), ACLAction::Deny);
    assert_eq!(acl.evaluate("10.1.2.3", "example.org:22"), ACLAction::Deny);
}

#[test]
fn host_patterns_are_case_insensitive() {
    let acl = ACLFile { acl: vec![readme_rule()] };
    assert_eq!(acl.evaluate("10.1.2.3", "WWW.GOOGLE.COM:22"), ACLAction::Allow);
    assert_eq!(acl.evaluate("10.1.2.3", "SomeHost.x:22"), ACLAction::Allow);
}

#[test]
fn inline_flag_makes_pattern_case_sensitive() {
    let acl = ACLFile {
        acl: vec![rule(0, ACLAction::Allow, &["0.0.0.0/0"], &["^(?-i)Exact$"], vec![PortEntry::SinglePort(80)])],
    };
    assert_eq!(acl.evaluate("1.1.1.1", "Exact:80"), ACLAction::Allow);
    assert_eq!(acl.evaluate("1.1.1.1", "exact:80"), ACLAction::Deny);
}

#[test]
fn invalid_regex_matches_nothing() {
    let acl = ACLFile { acl: vec![rule(0, ACLAction::Allow, &["0.0.0.0/0"], &["("], vec![PortEntry::SinglePort(80)])] };
    assert_eq!(acl.evaluate("1.1.1.1", "(:80"), ACLAction::Deny);
}

#[test]
fn no_rule_matched_is_denied() {
    let acl = ACLFile { acl: vec![] };
    assert_eq!(acl.evaluate("1.2.3.4", "example.com:80"), ACLAction::Deny);
}

#[test]
fn catch_all_rule_with_lowest_priority_changes_default() {
    let deny_ssh = rule(10, ACLAction::Deny, &["0.0.0.0/0"], &[".*"], vec![PortEntry::SinglePort(22)]);
    let allow_all = rule(-999999999, ACLAction::Allow, &["0.0.0.0/0", "::/0"], &[".*"], vec![PortEntry::PortRange(0, 65535)]);
    let acl = arrange_rules(ACLFile { acl: vec![allow_all, deny_ssh] });
    assert_eq!(acl.evaluate("1.2.3.4", "example.com:22"), ACLAction::Deny);
    assert_eq!(acl.evaluate("1.2.3.4", "example.com:80"), ACLAction::Allow);
    assert_eq!(acl.evaluate("2001:db8::1", "example.com:443"), ACLAction::Allow);
}

#[test]
fn higher_priority_rule_is_evaluated_first() {
    let low_allow = rule(1, ACLAction::Allow, &["0.0.0.0/0"], &[".*"], vec![PortEntry::SinglePort(80)]);
    let high_deny = rule(5, ACLAction::Deny, &["0.0.0.0/0"], &[".*"], vec![PortEntry::SinglePort(80)]);
    let acl = arrange_rules(ACLFile { acl: vec![low_allow, high_deny] });
    assert_eq!(acl.acl[0].priority, 5);
    assert_eq!(acl.acl[0].index, 1);
    assert_eq!(acl.acl[1].index, 0);
    assert_eq!(acl.evaluate("1.2.3.4", "x:80"), ACLAction::Deny);
}

#[test]
fn equal_priority_keeps_file_order() {
    let first = rule(7, ACLAction::Deny, &["0.0.0.0/0"], &[".*"], vec![PortEntry::SinglePort(80)]);
    let second = rule(7, ACLAction::Allow, &["0.0.0.0/0"], &[".*"], vec![PortEntry::SinglePort(80)]);
    let third = rule(-3, ACLAction::Allow, &["0.0.0.0/0"], &[".*"], vec![PortEntry::SinglePort(80)]);
    let fourth = rule(9, ACLAction::Allow, &["10.0.0.0/8"], &[".*"], vec![PortEntry::SinglePort(80)]);
    let acl = arrange_rules(ACLFile { acl: vec![first, second, third, fourth] });
    let order: Vec<usize> = acl.acl.iter().map(|r| r.index).collect();
    assert_eq!(order, vec![3, 0, 1, 2]);
    assert_eq!(acl.evaluate("1.2.3.4", "x:80"), ACLAction::Deny);
    assert_eq!(acl.evaluate("10.2.3.4", "x:80"), ACLAction::Allow);
}

#[test]
fn source_must_be_in_from_list() {
    let acl = ACLFile {
        acl: vec![rule(0, ACLAction::Allow, &["192.168.1.0/24", "10.0.0.5"], &[".*"], vec![PortEntry::SinglePort(80)])],
    };
    assert_eq!(acl.evaluate("192.168.1.77", "x:80"), ACLAction::Allow);
    assert_eq!(acl.evaluate("192.168.2.1", "x:80"), ACLAction::Deny);
    assert_eq!(acl.evaluate("10.0.0.5", "x:80"), ACLAction::Allow);
    assert_eq!(acl.evaluate("10.0.0.6", "x:80"), ACLAction::Deny);
}

#[test]
fn ipv6_sources_match_ipv6_networks_only() {
    let acl = ACLFile {
        acl: vec![rule(0, ACLAction::Allow, &["2001:db8::/32", "::1"], &[".*"], vec![PortEntry::SinglePort(80)])],
    };
    assert_eq!(acl.evaluate("2001:db8:1::5", "x:80"), ACLAction::Allow);
    assert_eq!(acl.evaluate("::1", "x:80"), ACLAction::Allow);
    assert_eq!(acl.evaluate("2001:db9::5", "x:80"), ACLAction::Deny);
    assert_eq!(acl.evaluate("1.2.3.4", "x:80"), ACLAction::Deny);
}

#[test]
fn malformed_requests_are_denied() {
    let acl = ACLFile { acl: vec![rule(0, ACLAction::Allow, &["0.0.0.0/0"], &[".*"], vec![PortEntry::PortRange(0, 65535)])] };
    assert_eq!(acl.evaluate("1.2.3.4", "no-port"), ACLAction::Deny);
    assert_eq!(acl.evaluate("1.2.3.4", "host:99999"), ACLAction::Deny);
    assert_eq!(acl.evaluate("1.2.3.4", "host:"), ACLAction::Deny);
    assert_eq!(acl.evaluate("not-an-ip", "host:80"), ACLAction::Deny);
    assert_eq!(acl.evaluate("1.2.3.4", "host:80"), ACLAction::Allow);
}

#[test]
fn parse_target_splits_at_last_colon() {
    let (host, port) = ACLFile::parse_target("[::1]:8080").unwrap();
    assert_eq!(host, "[::1]");
    assert_eq!(port, 8080);
    let (host, port) = ACLFile::parse_target("a:b:+7").unwrap();
    assert_eq!(host, "a:b");
    assert_eq!(port, 7);
    assert_eq!(ACLFile::parse_target("example.com").unwrap_err(), TargetError::MissingPort);
    assert_eq!(ACLFile::parse_target("example.com:http").unwrap_err(), TargetError::InvalidPort);
    assert_eq!(ACLFile::parse_target("example.com:65536").unwrap_err(), TargetError::InvalidPort);
}

#[test]
fn cidr_without_slash_is_a_single_address() {
    assert!(ACLFile::ip_matches_cidr(&IpValue::V4(0x0a000005), "10.0.0.5"));
    assert!(!ACLFile::ip_matches_cidr(&IpValue::V4(0x0a000006), "10.0.0.5"));
    assert!(!ACLFile::ip_matches_cidr(&IpValue::V4(0x0a000005), "garbage"));
    assert!(!ACLFile::ip_matches_cidr(&IpValue::V4(0x0a000005), "10.0.0.0/33"));
    assert!(ACLFile::ip_matches_cidr(&IpValue::V4(0x0a0000ff), "10.0.0.0/24"));
    assert!(ACLFile::ip_matches_cidr(&IpValue::V4(0xffffffff), "0.0.0.0/0"));
}

#[test]
fn port_ranges_are_inclusive() {
    let r = rule(0, ACLAction::Allow, &["0.0.0.0/0"], &[".*"], vec![PortEntry::PortRange(1000, 2000)]);
    let ip = IpValue::V4(1);
    assert!(ACLFile::matches_rule(&r, &ip, "h", 1000));
    assert!(ACLFile::matches_rule(&r, &ip, "h", 2000));
    assert!(!ACLFile::matches_rule(&r, &ip, "h", 999));
    assert!(!ACLFile::matches_rule(&r, &ip, "h", 2001));
}

#[test]
fn host_matches_pattern_searches_anywhere() {
    assert!(ACLFile::host_matches_pattern("www.google.com", "google"));
    assert!(!ACLFile::host_matches_pattern("www.google.com", "^google"));
    assert!(!ACLFile::host_matches_pattern("anything", "[unclosed"));
}

#[test]
fn is_acl_allowed_without_list_allows() {
    assert!(is_acl_allowed(None, "1.2.3.4", "whatever"));
    let acl = ACLFile { acl: vec![readme_rule()] };
    assert!(is_acl_allowed(Some(&acl), "1.2.3.4", "www.google.com:22"));
    assert!(!is_acl_allowed(Some(&acl), "1.2.3.4", "www.google.com:21"));
}

#[test]
fn default_priority_is_zero() {
    assert_eq!(default_priority(), 0);
}

#[test]
fn action_words() {
    assert_eq!(ACLAction::parse("allow"), Ok(ACLAction::Allow));
    assert_eq!(ACLAction::parse("ALLOW"), Ok(ACLAction::Allow));
    assert_eq!(ACLAction::parse("Deny"), Ok(ACLAction::Deny));
    assert_eq!(ACLAction::parse("permit"), Err(ActionError::UnknownAction));
    assert_eq!(ACLAction::parse(" allow"), Err(ActionError::UnknownAction));
    assert_eq!(ACLAction::Allow.word(), "allow");
    assert_eq!(ACLAction::Deny.word(), "deny");
}

#[test]
fn port_entry_text_forms() {
    assert_eq!(PortEntry::parse("22"), Ok(PortEntry::SinglePort(22)));
    assert_eq!(PortEntry::parse("+22"), Ok(PortEntry::SinglePort(22)));
    assert_eq!(PortEntry::parse("1000-2000"), Ok(PortEntry::PortRange(1000, 2000)));
    assert_eq!(PortEntry::parse(" 1000 - 2000 "), Ok(PortEntry::PortRange(1000, 2000)));
    assert_eq!(PortEntry::parse("80-80"), Ok(PortEntry::PortRange(80, 80)));
    assert_eq!(PortEntry::parse("2000-1000"), Err(PortEntryError::EndBeforeStart));
    assert_eq!(PortEntry::parse("x-1000"), Err(PortEntryError::InvalidStart));
    assert_eq!(PortEntry::parse("-1000"), Err(PortEntryError::InvalidStart));
    assert_eq!(PortEntry::parse("1000-70000"), Err(PortEntryError::InvalidEnd));
    assert_eq!(PortEntry::parse("1000-2000-3000"), Err(PortEntryError::InvalidEnd));
    assert_eq!(PortEntry::parse("http"), Err(PortEntryError::NotAPortEntry));
    assert_eq!(PortEntry::parse("70000"), Err(PortEntryError::NotAPortEntry));
    assert_eq!(PortEntry::parse(""), Err(PortEntryError::NotAPortEntry));
}

#[test]
fn port_entry_numbers() {
    assert_eq!(PortEntry::from_u64(443), Ok(PortEntry::SinglePort(443)));
    assert_eq!(PortEntry::from_u64(65535), Ok(PortEntry::SinglePort(65535)));
    assert_eq!(PortEntry::from_u64(65536), Err(PortEntryError::OutOfRange));
    assert_eq!(PortEntry::from_i64(0), Ok(PortEntry::SinglePort(0)));
    assert_eq!(PortEntry::from_i64(-1), Err(PortEntryError::OutOfRange));
    assert_eq!(PortEntry::from_i64(65536), Err(PortEntryError::OutOfRange));
}

#[test]
fn port_range_text_reads_back() {
    let text = PortEntry::range_text(3000, 4500);
    assert_eq!(text, "3000-4500");
    assert_eq!(PortEntry::parse(&text), Ok(PortEntry::PortRange(3000, 4500)));
    assert_eq!(PortEntry::parse("65535"), Ok(PortEntry::SinglePort(65535)));
}

#[test]
fn hcl_text_of_rules() {
    let acl = ACLFile {
        acl: vec![
            readme_rule(),
            rule(0, ACLAction::Deny, &["10.0.0.1"], &["a"], vec![PortEntry::SinglePort(1)]),
            rule(-5, ACLAction::Allow, &[], &[], vec![]),
        ],
    };
    let expected = "acl {\n  priority = 50\n  action = \"allow\"\n  from = [\n    \"0.0.0.0/0\",\n  ]\n  to {\n    hosts = [\n      \"somehost.*\",\n      \".*.google.com\",\n    ]\n    ports = [\n      22,\n      \"1000-2000\"\n      \"3000-4500\"\n    ]\n  }\n}\n\n\
acl {\n  action = \"deny\"\n  from = [\n    \"10.0.0.1\",\n  ]\n  to {\n    hosts = [\n      \"a\",\n    ]\n    ports = [\n      1,\n    ]\n  }\n}\n\n\
acl {\n  priority = -5\n  action = \"allow\"\n  from = [\n  ]\n  to {\n    hosts = [\n    ]\n    ports = [\n    ]\n  }\n}\n\n";
    assert_eq!(serialize_acl_to_hcl(&acl), expected);
    assert_eq!(serialize_acl_to_hcl(&ACLFile { acl: vec![] }), "");
}

#[test]
fn network_values_compare_by_family() {
    assert_ne!(NetValue::V4(0, 0), NetValue::V6(0, 0));
    assert_ne!(IpValue::V4(1), IpValue::V6(1));
}
