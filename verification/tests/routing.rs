use apate::config::types::{DnsMode, RoutingMode};
use apate::routing::dns::{DnsAction, DnsPolicy};
use apate::routing::doh::{DohError, DohForwarder, DohResponse};
use apate::routing::ip::IpAddress;
use apate::routing::split::SplitPolicy;
use apate::routing::table::{Cidr, RouteTable, RouteTableError, RouteTarget};
use apate::routing::RoutingEngine;

#[test]
fn dns_policy_blocks_doh_mode_without_endpoint() {
    let policy = DnsPolicy::new(DnsMode::Doh, false);
    assert_eq!(DnsAction::Blocked, policy.route_dns_query(RouteTarget::Tunnel));
}

#[test]
fn dns_policy_prevents_plain_fallback_on_bypass_when_protected() {
    let policy = DnsPolicy::new(DnsMode::Fallback, false);
    assert_eq!(DnsAction::Blocked, policy.route_dns_query(RouteTarget::Bypass));
}

#[test]
fn dns_policy_uses_plain_mode_when_explicitly_configured() {
    let policy = DnsPolicy::new(DnsMode::Plain, false);
    assert_eq!(DnsAction::UsePlain, policy.route_dns_query(RouteTarget::Bypass));
}

#[test]
fn forwarder_rejects_non_https_endpoint() {
    let created = DohForwarder::new(String::from("http://resolver.example/dns-query"));
    assert_eq!(Err(DohError::InvalidEndpoint), created);
}

#[test]
fn forwarder_builds_dns_query_for_dual_stack() {
    let forwarder =
        DohForwarder::new(String::from("https://resolver.example/dns-query")).expect("forwarder");
    let a_query = forwarder.build_query("example.com", 1, 0x1234).expect("a");
    let aaaa_query = forwarder.build_query("example.com", 28, 0x1235).expect("aaaa");

    assert!(a_query.len() > 12);
    assert!(aaaa_query.len() > 12);
    assert_eq!(1_u16.to_be_bytes(), [a_query[a_query.len() - 4], a_query[a_query.len() - 3]]);
    assert_eq!(
        28_u16.to_be_bytes(),
        [aaaa_query[aaaa_query.len() - 4], aaaa_query[aaaa_query.len() - 3]]
    );
}

#[test]
fn forwarder_parses_minimal_dns_response_header() {
    let forwarder =
        DohForwarder::new(String::from("https://resolver.example/dns-query")).expect("forwarder");
    let response = [0x12, 0x34, 0x81, 0x80, 0x00, 0x01, 0x00, 0x02, 0x00, 0x00, 0x00, 0x00];

    let parsed = forwarder.parse_response(&response).expect("parsed");
    assert_eq!(0x1234, parsed.request_id);
    assert_eq!(2, parsed.answer_count);
    assert_eq!(0, parsed.rcode);
}

#[test]
fn full_mode_sends_all_packets_to_tunnel() {
    let engine = RoutingEngine::new(RoutingMode::Full, DnsMode::Doh, true);
    let ip = IpAddress::from_octets([8, 8, 8, 8]);

    assert_eq!(RouteTarget::Tunnel, engine.route_packet(ip));
    assert_eq!(DnsAction::UseDoh, engine.route_dns_query(ip));
}

#[test]
fn split_mode_uses_route_table_for_decisions() {
    let mut engine = RoutingEngine::new(RoutingMode::Split, DnsMode::Fallback, true);
    engine.add_split_tunnel_route(Cidr::parse("10.0.0.0/8").expect("cidr"));

    let tunnel_ip = IpAddress::from_octets([10, 1, 2, 3]);
    let bypass_ip = IpAddress::from_octets([1, 1, 1, 1]);

    assert_eq!(RouteTarget::Tunnel, engine.route_packet(tunnel_ip));
    assert_eq!(RouteTarget::Bypass, engine.route_packet(bypass_ip));
    assert_eq!(DnsAction::UseDoh, engine.route_dns_query(tunnel_ip));
    assert_eq!(DnsAction::UseDoh, engine.route_dns_query(bypass_ip));
}

#[test]
fn split_policy_full_mode_always_tunnels() {
    let policy = SplitPolicy::new(RoutingMode::Full);
    let destination = IpAddress::from_octets([203, 0, 113, 1]);

    assert_eq!(RouteTarget::Tunnel, policy.route_for(destination));
}

#[test]
fn split_policy_routes_unlisted_ips_to_bypass() {
    let mut policy = SplitPolicy::new(RoutingMode::Split);
    policy.add_tunnel_route(Cidr::parse("10.0.0.0/8").expect("cidr"));

    let tunnel_ip = IpAddress::from_octets([10, 20, 30, 40]);
    let bypass_ip = IpAddress::from_octets([203, 0, 113, 1]);

    assert_eq!(RouteTarget::Tunnel, policy.route_for(tunnel_ip));
    assert_eq!(RouteTarget::Bypass, policy.route_for(bypass_ip));
}

#[test]
fn route_table_uses_longest_prefix_match() {
    let mut table = RouteTable::new(RouteTarget::Bypass);
    table.add_route_from_str("10.0.0.0/8", RouteTarget::Bypass).expect("add /8");
    table.add_route_from_str("10.10.0.0/16", RouteTarget::Tunnel).expect("add /16");

    let matched = table.lookup(IpAddress::from_octets([10, 10, 1, 1]));
    let unmatched = table.lookup(IpAddress::from_octets([11, 10, 1, 1]));

    assert_eq!(RouteTarget::Tunnel, matched);
    assert_eq!(RouteTarget::Bypass, unmatched);
}

#[test]
fn cidr_parse_rejects_invalid_prefix() {
    let parsed = Cidr::parse("10.0.0.0/33");
    assert!(parsed.is_err());
}

#[test]
fn cidr_contains_ipv6_addresses() {
    let cidr = Cidr::parse("2001:db8::/32").expect("cidr");
    let match_ip = IpAddress::parse("2001:db8::1").expect("ip");
    let miss_ip = IpAddress::parse("2001:db9::1").expect("ip");

    assert!(cidr.contains(match_ip));
    assert!(!cidr.contains(miss_ip));
}

#[test]
fn ip_parse_reads_like_the_standard_library() {
    assert_eq!(Some(IpAddress::V4(0x0A00_0001)), IpAddress::parse("10.0.0.1"));
    assert_eq!(Some(IpAddress::V4(0xFFFF_FFFF)), IpAddress::parse("255.255.255.255"));
    assert_eq!(None, IpAddress::parse("256.0.0.1"));
    assert_eq!(None, IpAddress::parse("01.2.3.4"));
    assert_eq!(None, IpAddress::parse("1.2.3"));
    assert_eq!(None, IpAddress::parse("1.2.3.4 "));
    assert_eq!(Some(IpAddress::V6(1)), IpAddress::parse("::1"));
    assert_eq!(Some(IpAddress::V6(0)), IpAddress::parse("::"));
    assert_eq!(
        Some(IpAddress::V6(0x2001_0db8_0000_0000_0000_0000_0000_0001)),
        IpAddress::parse("2001:DB8::1")
    );
    assert_eq!(
        Some(IpAddress::V6(0x0000_0000_0000_0000_0000_ffff_c000_0280)),
        IpAddress::parse("::ffff:192.0.2.128")
    );
    assert_eq!(
        Some(IpAddress::V6(0x0001_0002_0003_0004_0005_0006_0007_0008)),
        IpAddress::parse("1:2:3:4:5:6:7:8")
    );
    assert_eq!(None, IpAddress::parse("1:2:3:4:5:6:7:8:9"));
    assert_eq!(None, IpAddress::parse("1::2::3"));
    assert_eq!(None, IpAddress::parse("12345::"));
    assert_eq!(None, IpAddress::parse("1.2.3.4::"));
    assert_eq!(None, IpAddress::parse(""));
}

#[test]
fn cidr_parse_normalizes_and_reports_errors() {
    let cidr = Cidr::parse("10.1.2.3/8").expect("cidr");
    assert_eq!(8, cidr.prefix_len());
    assert!(cidr.contains(IpAddress::from_octets([10, 200, 0, 1])));
    assert!(!cidr.contains(IpAddress::parse("::a01:203").expect("ip")));
    assert_eq!(Err(RouteTableError::InvalidPrefix { value: 33, max: 32 }), Cidr::parse("10.0.0.0/33"));
    assert_eq!(Err(RouteTableError::InvalidPrefix { value: 129, max: 128 }), Cidr::parse("::/129"));
    assert_eq!(
        Err(RouteTableError::InvalidCidr { value: String::from("10.0.0.0") }),
        Cidr::parse("10.0.0.0")
    );
    assert_eq!(
        Err(RouteTableError::InvalidCidr { value: String::from("10.0.0/8") }),
        Cidr::parse("10.0.0/8")
    );
    assert_eq!(
        Err(RouteTableError::InvalidCidr { value: String::from("10.0.0.0/256") }),
        Cidr::parse("10.0.0.0/256")
    );
    let everything = Cidr::parse("0.0.0.0/0").expect("cidr");
    assert!(everything.contains(IpAddress::from_octets([1, 2, 3, 4])));
}

#[test]
fn route_table_keeps_insertion_order_for_equal_prefixes() {
    let mut table = RouteTable::new(RouteTarget::Tunnel);
    table.add_route_from_str("10.0.0.0/8", RouteTarget::Bypass).expect("first");
    table.add_route_from_str("10.9.9.9/8", RouteTarget::Tunnel).expect("second");
    assert_eq!(RouteTarget::Bypass, table.lookup(IpAddress::from_octets([10, 1, 1, 1])));
    assert_eq!(RouteTarget::Tunnel, table.lookup(IpAddress::from_octets([12, 1, 1, 1])));
    assert!(table.add_route_from_str("bogus", RouteTarget::Bypass).is_err());
}

#[test]
fn doh_query_bytes_and_errors() {
    let forwarder = DohForwarder::new(String::from("https://r.example")).expect("forwarder");
    assert_eq!("https://r.example", forwarder.endpoint());
    let query = forwarder.build_query("a.bc", 1, 0x0102).expect("query");
    assert_eq!(
        vec![1, 2, 1, 0, 0, 1, 0, 0, 0, 0, 0, 0, 1, b'a', 2, b'b', b'c', 0, 0, 1, 0, 1],
        query
    );
    assert_eq!(
        Ok(DohResponse { request_id: 0x0102, answer_count: 0, rcode: 0 }),
        forwarder.parse_response(&query)
    );
    assert_eq!(Err(DohError::InvalidRecordType), forwarder.build_query("a.bc", 0, 1));
    assert_eq!(Err(DohError::InvalidDomain), forwarder.build_query("-a.bc", 1, 1));
    assert_eq!(Err(DohError::InvalidDomain), forwarder.build_query("a..bc", 1, 1));
    assert_eq!(Err(DohError::InvalidDomain), forwarder.build_query("", 1, 1));
    assert_eq!(Err(DohError::InvalidDomain), forwarder.build_query("a_b.c", 1, 1));
    assert_eq!(Err(DohError::MalformedResponse), forwarder.parse_response(&[0; 11]));
    assert_eq!(Err(DohError::InvalidEndpoint), DohForwarder::new(String::from("https:// ")));
    assert_eq!("invalid dns domain", DohError::InvalidDomain.message());
    let response = [0, 7, 0x81, 0x83, 0, 0, 0, 0, 0, 0, 0, 0];
    assert_eq!(3, forwarder.parse_response(&response).expect("parsed").rcode);
}

#[test]
fn fallback_dns_without_doh_uses_plain_only_in_tunnel() {
    let policy = DnsPolicy::new(DnsMode::Fallback, false);
    assert_eq!(DnsAction::UsePlain, policy.route_dns_query(RouteTarget::Tunnel));
    let policy = DnsPolicy::new(DnsMode::Fallback, true);
    assert_eq!(DnsAction::UseDoh, policy.route_dns_query(RouteTarget::Bypass));
}
