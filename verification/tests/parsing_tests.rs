use desertstorm::addr::{ipv4_string, parse_ipv4_at};
use desertstorm::network::{analysis_would_overflow, analyze_network, parse_target};
use desertstorm::ports::parse_ports;
use desertstorm::schedule::{keep_listening, pacing_delay, probe_count};
use desertstorm::text::{chars_of, is_whitespace};

fn ip(a: u8, b: u8, c: u8, d: u8) -> u32 {
    u32::from_be_bytes([a, b, c, d])
}

fn parse_ip(s: &str) -> Option<u32> {
    let v = chars_of(s);
    parse_ipv4_at(&v, 0, v.len())
}

#[test]
fn ports_single() {
    assert_eq!(parse_ports("80"), vec![80]);
}

#[test]
fn ports_list_is_sorted_and_deduplicated() {
    assert_eq!(parse_ports("443,22,80,22"), vec![22, 80, 443]);
}

#[test]
fn ports_range() {
    assert_eq!(parse_ports("1-5"), vec![1, 2, 3, 4, 5]);
}

#[test]
fn ports_mixed_with_spaces_and_overlap() {
    assert_eq!(parse_ports(" 8080 , 1-3, 2 ,443"), vec![1, 2, 3, 443, 8080]);
}

#[test]
fn ports_full_range() {
    let p = parse_ports("1-65535");
    assert_eq!(p.len(), 65535);
    assert_eq!(p[0], 1);
    assert_eq!(p[65534], 65535);
}

#[test]
fn ports_invalid_parts_are_skipped() {
    assert_eq!(parse_ports("abc,0,65536,5-1,0-3,22"), vec![22]);
    assert_eq!(parse_ports(""), Vec::<u16>::new());
    assert_eq!(parse_ports("1-2-3"), Vec::<u16>::new());
    assert_eq!(parse_ports("-5"), Vec::<u16>::new());
}

#[test]
fn ports_accept_a_plus_sign_as_integer_parsing_does() {
    assert_eq!(parse_ports("+22,+1-+2"), vec![1, 2, 22]);
    assert_eq!("+22".parse::<u16>(), Ok(22));
}

#[test]
fn target_single_address() {
    assert_eq!(parse_target("192.168.1.1"), Ok((ip(192, 168, 1, 1), ip(192, 168, 1, 1))));
}

#[test]
fn target_cidr_block() {
    assert_eq!(parse_target("10.0.0.0/24"), Ok((ip(10, 0, 0, 0), ip(10, 0, 0, 255))));
    assert_eq!(parse_target("10.0.0.77/24"), Ok((ip(10, 0, 0, 0), ip(10, 0, 0, 255))));
    assert_eq!(parse_target("172.16.5.4/12"), Ok((ip(172, 16, 0, 0), ip(172, 31, 255, 255))));
}

#[test]
fn target_edge_prefixes() {
    assert_eq!(parse_target("1.2.3.4/0"), Ok((0, u32::MAX)));
    assert_eq!(parse_target("1.2.3.4/32"), Ok((ip(1, 2, 3, 4), ip(1, 2, 3, 4))));
    assert_eq!(parse_target("1.2.3.4/31"), Ok((ip(1, 2, 3, 4), ip(1, 2, 3, 5))));
}

#[test]
fn target_errors() {
    assert_eq!(parse_target("1.2.3.4/33"), Err("Prefix length 33 exceeds 32".to_string()));
    assert_eq!(
        parse_target("1.2.3.4/x"),
        Err("Invalid prefix length in '1.2.3.4/x'".to_string())
    );
    assert_eq!(parse_target("1.2.3/24"), Err("Invalid IP address '1.2.3'".to_string()));
    assert_eq!(parse_target("bad"), Err("Invalid IP address 'bad'".to_string()));
    assert_eq!(parse_target("01.2.3.4"), Err("Invalid IP address '01.2.3.4'".to_string()));
    assert_eq!(parse_target("1.2.3.256"), Err("Invalid IP address '1.2.3.256'".to_string()));
    assert_eq!(
        parse_target("1.2.3.4/99999999999"),
        Err("Invalid prefix length in '1.2.3.4/99999999999'".to_string())
    );
}

#[test]
fn address_parsing_follows_dotted_decimal_rules() {
    assert_eq!(parse_ip("0.0.0.0"), Some(0));
    assert_eq!(parse_ip("255.255.255.255"), Some(u32::MAX));
    assert_eq!(parse_ip("10.20.30.40"), Some(ip(10, 20, 30, 40)));
    assert_eq!(parse_ip("1.2.3"), None);
    assert_eq!(parse_ip("1.2.3.4.5"), None);
    assert_eq!(parse_ip("1..3.4"), None);
    assert_eq!(parse_ip("1.2.3.04"), None);
    assert_eq!(parse_ip("1.2.3.+4"), None);
    assert_eq!(parse_ip(" 1.2.3.4"), None);
    assert_eq!(parse_ip("1.2.3.1000"), None);
    assert_eq!(parse_ip(""), None);
}

#[test]
fn address_text_round_trip() {
    for a in [0u32, 1, 255, 256, 65535, 0x0A00_0001, 0xC0A8_0101, 0x7F00_0001, u32::MAX] {
        let t = ipv4_string(a);
        assert_eq!(parse_ip(&t), Some(a));
    }
    assert_eq!(ipv4_string(ip(192, 168, 0, 10)), "192.168.0.10");
}

#[test]
fn analysis_of_a_block() {
    let info = analyze_network("192.168.1.77/24").unwrap();
    assert_eq!(info.network_address, "192.168.1.0");
    assert_eq!(info.broadcast_address, "192.168.1.255");
    assert_eq!(info.netmask, "255.255.255.0");
    assert_eq!(info.cidr_prefix, 24);
    assert_eq!(info.total_hosts, 254);
    assert_eq!(info.host_range, ("192.168.1.1".to_string(), "192.168.1.254".to_string()));
}

#[test]
fn analysis_of_small_and_large_blocks() {
    let info = analyze_network("10.0.0.1/31").unwrap();
    assert_eq!(info.total_hosts, 2);
    assert_eq!(info.host_range, ("10.0.0.0".to_string(), "10.0.0.1".to_string()));
    let info = analyze_network("10.0.0.1/32").unwrap();
    assert_eq!(info.total_hosts, 1);
    assert_eq!(info.netmask, "255.255.255.255");
    assert_eq!(info.host_range, ("10.0.0.1".to_string(), "10.0.0.1".to_string()));
    let info = analyze_network("10.9.8.7/0").unwrap();
    assert_eq!(info.network_address, "0.0.0.0");
    assert_eq!(info.broadcast_address, "255.255.255.255");
    assert_eq!(info.netmask, "0.0.0.0");
    assert_eq!(info.total_hosts, 4294967294);
    let info = analyze_network("10.9.8.7/16").unwrap();
    assert_eq!(info.network_address, "10.9.0.0");
    assert_eq!(info.total_hosts, 65534);
}

#[test]
fn analysis_of_a_single_host_keeps_the_text() {
    let info = analyze_network("10.0.0.1").unwrap();
    assert_eq!(info.network_address, "10.0.0.1");
    assert_eq!(info.broadcast_address, "10.0.0.1");
    assert_eq!(info.netmask, "255.255.255.255");
    assert_eq!(info.cidr_prefix, 32);
    assert_eq!(info.total_hosts, 1);
}

#[test]
fn analysis_errors() {
    assert_eq!(analyze_network("1.2.3.4/abc"), Err("Invalid prefix".to_string()));
    assert_eq!(analyze_network("1.2.3.4/300"), Err("Invalid prefix".to_string()));
    assert_eq!(analyze_network("1.2.3/8"), Err("invalid IPv4 address syntax".to_string()));
}

#[test]
fn analysis_names_the_range_that_the_scan_covers() {
    for t in ["10.1.2.3/8", "192.168.7.9/30", "1.1.1.1/32", "8.8.8.8/0", "10.0.0.5"] {
        let (lo, hi) = parse_target(t).unwrap();
        let info = analyze_network(t).unwrap();
        assert_eq!(info.network_address, ipv4_string(lo));
        assert_eq!(info.broadcast_address, ipv4_string(hi));
    }
}

#[test]
fn white_space_agrees_with_char_is_whitespace() {
    for c in (0u32..=0x10FFFF).filter_map(char::from_u32) {
        assert_eq!(is_whitespace(c), c.is_whitespace(), "{:?}", c);
    }
}

#[test]
fn pacing_waits_for_the_rate() {
    assert_eq!(pacing_delay(0, 1000, 0), 0);
    assert_eq!(pacing_delay(1000, 10, 5_000_000), 5_000_000);
    assert_eq!(pacing_delay(1000, 10, 20_000_000), 0);
    assert_eq!(pacing_delay(3, 1, 0), 333_333_333);
    assert_eq!(pacing_delay(1, u64::MAX, 0), (u64::MAX as u128) * 1_000_000_000);
}

#[test]
fn listening_stops_after_cooldown_or_an_hour() {
    assert!(keep_listening(None, 10, 5_000_000_000));
    assert!(keep_listening(Some(9_999_999_999), 10, 20_000_000_000));
    assert!(!keep_listening(Some(10_000_000_000), 10, 20_000_000_000));
    assert!(!keep_listening(Some(0), 0, 1));
    assert!(keep_listening(None, 10, 3_600_000_000_000));
    assert!(!keep_listening(None, 10, 3_600_000_000_001));
}

#[test]
fn probe_count_of_a_scan() {
    assert_eq!(probe_count(ip(10, 0, 0, 0), ip(10, 0, 0, 255), 3), 768);
    assert_eq!(probe_count(5, 5, 1), 1);
    assert_eq!(probe_count(0, u32::MAX, 65535), 4294967296 * 65535);
}

#[test]
fn pacing_wait_ends_when_the_probes_are_due() {
    for (rate, count, elapsed) in [(7u64, 3u64, 1u64), (1000, 10, 9_999_999), (10, 1, 0)] {
        let wait = pacing_delay(rate, count, elapsed);
        let due = (count as u128) * 1_000_000_000 / (rate as u128);
        assert_eq!(elapsed as u128 + wait, due);
    }
}

#[test]
fn analyses_that_would_overflow_are_recognised() {
    assert!(analysis_would_overflow("1.2.3.4/33"));
    assert!(analysis_would_overflow("1.2.3.4/255"));
    assert!(!analysis_would_overflow("1.2.3.4/32"));
    assert!(!analysis_would_overflow("1.2.3.4/256"));
    assert!(!analysis_would_overflow("1.2.3/40"));
    assert!(!analysis_would_overflow("1.2.3.4"));
}
