use desertstorm::checksum::{ip_checksum, tcp_checksum};
use desertstorm::packet::{encode_seq, fold_hash, PacketTemplate, EPHEMERAL_HIGH, EPHEMERAL_LOW};
use desertstorm::permutation::PermutationGen;
use desertstorm::reply::{process_frame, read_reply};
use desertstorm::results::PortStatus;
use desertstorm::scan::{probe_frame, ScanPlan};
use std::collections::HashSet;

const SRC_MAC: [u8; 6] = [0x02, 0x00, 0x00, 0x00, 0x00, 0x01];
const GW_MAC: [u8; 6] = [0xff, 0xff, 0xff, 0xff, 0xff, 0xff];

fn ip(a: u8, b: u8, c: u8, d: u8) -> u32 {
    u32::from_be_bytes([a, b, c, d])
}

/// A reply from `from_ip:from_port` to `to_ip:to_port`.
fn reply(from_ip: u32, to_ip: u32, from_port: u16, to_port: u16, ack: u32, flags: u8, ttl: u8) -> Vec<u8> {
    let mut f = Vec::new();
    f.extend_from_slice(&SRC_MAC);
    f.extend_from_slice(&GW_MAC);
    f.extend_from_slice(&[0x08, 0x00]);
    f.extend_from_slice(&[0x45, 0, 0, 40, 0, 0, 0x40, 0, ttl, 6, 0, 0]);
    f.extend_from_slice(&from_ip.to_be_bytes());
    f.extend_from_slice(&to_ip.to_be_bytes());
    f.extend_from_slice(&from_port.to_be_bytes());
    f.extend_from_slice(&to_port.to_be_bytes());
    f.extend_from_slice(&0x1111_2222u32.to_be_bytes());
    f.extend_from_slice(&ack.to_be_bytes());
    f.extend_from_slice(&[0x50, flags, 0xff, 0xff, 0, 0, 0, 0]);
    f
}

#[test]
fn ip_checksum_of_a_known_header() {
    let hdr = [
        0x45, 0x00, 0x00, 0x73, 0x00, 0x00, 0x40, 0x00, 0x40, 0x11, 0x00, 0x00, 0xc0, 0xa8, 0x00,
        0x01, 0xc0, 0xa8, 0x00, 0xc7,
    ];
    assert_eq!(ip_checksum(&hdr), 0xb861);
    let mut filled = hdr;
    filled[10] = 0xb8;
    filled[11] = 0x61;
    assert_eq!(ip_checksum(&filled), 0);
}

#[test]
fn ip_checksum_of_odd_length_pads_with_zero() {
    assert_eq!(ip_checksum(&[0x01]), !0x0100u16);
    assert_eq!(ip_checksum(&[]), 0xffff);
}

#[test]
fn tcp_checksum_of_a_known_segment() {
    let tcp = [
        0x9c, 0x41, 0x00, 0x50, 0x12, 0x34, 0x56, 0x78, 0, 0, 0, 0, 0x50, 0x02, 0xff, 0xff, 0, 0,
        0, 0,
    ];
    assert_eq!(tcp_checksum(ip(192, 168, 1, 10), ip(192, 168, 1, 1), &tcp), 0x2749);
}

#[test]
fn probe_frame_bytes() {
    let t = PacketTemplate::new(SRC_MAC, ip(192, 168, 1, 10), GW_MAC);
    let f = t.generate_with_id(ip(192, 168, 1, 1), 80, 0x1234_5678, 40001, 0x1c46);
    let mut expected: Vec<u8> = Vec::new();
    expected.extend_from_slice(&GW_MAC);
    expected.extend_from_slice(&SRC_MAC);
    expected.extend_from_slice(&[0x08, 0x00]);
    expected.extend_from_slice(&[
        69, 0, 0, 40, 28, 70, 64, 0, 64, 6, 155, 46, 192, 168, 1, 10, 192, 168, 1, 1,
    ]);
    expected.extend_from_slice(&[
        156, 65, 0, 80, 18, 52, 86, 120, 0, 0, 0, 0, 80, 2, 255, 255, 39, 73, 0, 0,
    ]);
    assert_eq!(f, expected);
    assert_eq!(t.source_ip(), ip(192, 168, 1, 10));
}

#[test]
fn probe_checksums_verify() {
    let t = PacketTemplate::new(SRC_MAC, ip(10, 1, 2, 3), GW_MAC);
    for (dst, port, seq, sport, id) in [
        (ip(10, 1, 2, 4), 22u16, 0u32, 40000u16, 0u16),
        (ip(8, 8, 8, 8), 443, u32::MAX, 64999, 0xffff),
        (ip(255, 255, 255, 255), 65535, 0x8000_0001, 50000, 1234),
    ] {
        let f = t.generate_with_id(dst, port, seq, sport, id);
        assert_eq!(f.len(), 54);
        assert_eq!(ip_checksum(&f[14..34]), 0);
        assert_eq!(tcp_checksum(ip(10, 1, 2, 3), dst, &f[34..54]), 0);
    }
}

#[test]
fn generated_frames_differ_only_in_identification() {
    let t = PacketTemplate::new(SRC_MAC, ip(10, 1, 2, 3), GW_MAC);
    let f = t.generate(ip(10, 1, 2, 9), 80, 77, 45000);
    let id = u16::from_be_bytes([f[18], f[19]]);
    assert_eq!(f, t.generate_with_id(ip(10, 1, 2, 9), 80, 77, 45000, id));
}

#[test]
fn fold_hash_adds_the_halves() {
    assert_eq!(fold_hash(0x0000_0001_0000_0002), 3);
    assert_eq!(fold_hash(u64::MAX), 0xffff_fffe);
    assert_eq!(fold_hash(0), 0);
}

#[test]
fn cookies_are_deterministic_and_depend_on_every_field() {
    let a = encode_seq(ip(10, 0, 0, 1), ip(10, 0, 0, 2), 40000, 80);
    assert_eq!(a, encode_seq(ip(10, 0, 0, 1), ip(10, 0, 0, 2), 40000, 80));
    assert_ne!(a, encode_seq(ip(10, 0, 0, 2), ip(10, 0, 0, 1), 40000, 80));
    assert_ne!(a, encode_seq(ip(10, 0, 0, 1), ip(10, 0, 0, 3), 40000, 80));
    assert_ne!(a, encode_seq(ip(10, 0, 0, 1), ip(10, 0, 0, 2), 40001, 80));
    assert_ne!(a, encode_seq(ip(10, 0, 0, 1), ip(10, 0, 0, 2), 40000, 81));
}

#[test]
fn probe_frame_carries_the_cookie() {
    let src = ip(192, 168, 0, 2);
    let t = PacketTemplate::new(SRC_MAC, src, GW_MAC);
    for _ in 0..20 {
        let f = probe_frame(&t, ip(192, 168, 0, 9), 443);
        let sport = u16::from_be_bytes([f[34], f[35]]);
        let dport = u16::from_be_bytes([f[36], f[37]]);
        let seq = u32::from_be_bytes([f[38], f[39], f[40], f[41]]);
        assert!(EPHEMERAL_LOW <= sport && sport < EPHEMERAL_HIGH);
        assert_eq!(dport, 443);
        assert_eq!(seq, encode_seq(src, ip(192, 168, 0, 9), sport, 443));
        assert_eq!(ip_checksum(&f[14..34]), 0);
        assert_eq!(tcp_checksum(src, ip(192, 168, 0, 9), &f[34..54]), 0);
    }
}

#[test]
fn syn_ack_to_a_probe_is_an_open_port() {
    let me = ip(10, 0, 0, 1);
    let them = ip(10, 0, 0, 5);
    let ack = encode_seq(me, them, 40123, 22).wrapping_add(1);
    let r = process_frame(&reply(them, me, 22, 40123, ack, 0x12, 64), me, 1_500_000_000).unwrap();
    assert_eq!(r.ip, "10.0.0.5");
    assert_eq!(r.port, 22);
    assert_eq!(r.status, PortStatus::Open);
    assert_eq!(r.service, "ssh");
    assert_eq!(r.ttl, Some(64));
    assert_eq!(r.os_guess, Some("Linux/Unix".to_string()));
    assert_eq!(r.version, None);
    assert_eq!(r.banner, None);
    assert_eq!(r.timestamp, 1_500_000_000);
}

#[test]
fn rst_to_a_probe_is_a_closed_port() {
    let me = ip(10, 0, 0, 1);
    let them = ip(10, 0, 0, 6);
    let ack = encode_seq(me, them, 50000, 9999).wrapping_add(1);
    let r = process_frame(&reply(them, me, 9999, 50000, ack, 0x14, 128), me, 7).unwrap();
    assert_eq!(r.status, PortStatus::Closed);
    assert_eq!(r.service, "unknown");
    assert_eq!(r.os_guess, Some("Windows".to_string()));
}

#[test]
fn frames_that_answer_no_probe_are_ignored() {
    let me = ip(10, 0, 0, 1);
    let them = ip(10, 0, 0, 5);
    let ack = encode_seq(me, them, 40123, 22).wrapping_add(1);
    // wrong acknowledgement
    assert!(process_frame(&reply(them, me, 22, 40123, ack.wrapping_add(1), 0x12, 64), me, 0).is_none());
    // local port outside the ephemeral range
    let ack2 = encode_seq(me, them, 39999, 22).wrapping_add(1);
    assert!(process_frame(&reply(them, me, 22, 39999, ack2, 0x12, 64), me, 0).is_none());
    let ack3 = encode_seq(me, them, 65000, 22).wrapping_add(1);
    assert!(process_frame(&reply(them, me, 22, 65000, ack3, 0x12, 64), me, 0).is_none());
    // neither SYN+ACK nor RST
    assert!(process_frame(&reply(them, me, 22, 40123, ack, 0x10, 64), me, 0).is_none());
    assert!(process_frame(&reply(them, me, 22, 40123, ack, 0x02, 64), me, 0).is_none());
    // another scanner address
    assert!(process_frame(&reply(them, me, 22, 40123, ack, 0x12, 64), ip(10, 0, 0, 2), 0).is_none());
}

#[test]
fn malformed_frames_are_ignored() {
    let me = ip(10, 0, 0, 1);
    let them = ip(10, 0, 0, 5);
    let ack = encode_seq(me, them, 40123, 22).wrapping_add(1);
    let good = reply(them, me, 22, 40123, ack, 0x12, 64);
    assert!(process_frame(&good[..13], me, 0).is_none());
    assert!(process_frame(&good[..40], me, 0).is_none());
    assert!(process_frame(&good[..53], me, 0).is_none());
    let mut not_ip = good.clone();
    not_ip[12] = 0x86;
    not_ip[13] = 0xdd;
    assert!(process_frame(&not_ip, me, 0).is_none());
    let mut udp = good.clone();
    udp[23] = 17;
    assert!(process_frame(&udp, me, 0).is_none());
}

#[test]
fn reply_fields_are_read_from_their_offsets() {
    let f = reply(ip(1, 2, 3, 4), ip(5, 6, 7, 8), 443, 41000, 0xdead_beef, 0x12, 57);
    let r = read_reply(&f).unwrap();
    assert_eq!(r.src_ip, ip(1, 2, 3, 4));
    assert_eq!(r.ttl, 57);
    assert_eq!(r.remote_port, 443);
    assert_eq!(r.local_port, 41000);
    assert_eq!(r.ack, 0xdead_beef);
    assert_eq!(r.flags, 0x12);
}

#[test]
fn reply_with_ip_options_is_read_past_them() {
    let mut f = reply(ip(1, 2, 3, 4), ip(5, 6, 7, 8), 443, 41000, 9, 0x04, 57);
    // header length 6 words: four option bytes after the fixed header
    f[14] = 0x46;
    f[16] = 0;
    f[17] = 44;
    for (k, b) in [1u8, 1, 1, 0].iter().enumerate() {
        f.insert(34 + k, *b);
    }
    let r = read_reply(&f).unwrap();
    assert_eq!(r.remote_port, 443);
    assert_eq!(r.local_port, 41000);
    assert_eq!(r.flags, 0x04);
}

#[test]
fn permutation_walk_from_a_seed() {
    let mut g = PermutationGen::new(0);
    assert_eq!(g.next(), Some(3));
    assert_eq!(g.next(), Some(9));
    assert_eq!(g.next(), Some(27));
    let mut g = PermutationGen::new(1);
    assert_eq!(g.next(), Some(13));
    assert_eq!(g.next(), Some(169));
    let mut g = PermutationGen::new(6 * 1000 + 5);
    assert_eq!(g.next(), Some(((6 * 1000 + 5) * 29) as u32));
    let mut g = PermutationGen::new(2);
    assert_eq!(g.next(), Some(30));
    let mut g = PermutationGen::new(3);
    assert_eq!(g.next(), Some(63));
    let mut g = PermutationGen::new(4);
    assert_eq!(g.next(), Some(96));
}

#[test]
fn permutation_walk_skips_values_above_the_address_space() {
    // The walk of seed p - 1 (multiplier 3) passes p - 3 and p - 9, which lie
    // above 255.255.255.255, and yields p - 27 first.
    let mut g = PermutationGen::new(4294967310);
    assert_eq!(g.next(), Some(4294967284));
}

#[test]
fn permutation_walk_never_repeats() {
    for seed in [0u64, 1, 2, 3, 4, 5, 987654321] {
        let mut g = PermutationGen::new(seed);
        let mut seen = HashSet::new();
        for _ in 0..100_000 {
            let a = g.next().unwrap();
            assert!(a >= 1);
            assert!(seen.insert(a), "seed {} repeated {}", seed, a);
        }
    }
}

#[test]
fn sequential_plan_probes_every_pair_once_in_order() {
    let mut p = ScanPlan::new(10, 12, vec![22, 80], false, 0);
    let mut got = Vec::new();
    while let Some(x) = p.next_probe() {
        got.push(x);
    }
    assert_eq!(got, vec![(10, 22), (10, 80), (11, 22), (11, 80), (12, 22), (12, 80)]);
    assert_eq!(p.next_probe(), None);
}

#[test]
fn sequential_plan_of_one_address() {
    let mut p = ScanPlan::new(ip(10, 0, 0, 5), ip(10, 0, 0, 5), vec![443], false, 99);
    assert_eq!(p.next_probe(), Some((ip(10, 0, 0, 5), 443)));
    assert_eq!(p.next_probe(), None);
}

#[test]
fn plan_on_no_ports_probes_nothing() {
    let mut p = ScanPlan::new(1, 5, vec![], false, 0);
    assert_eq!(p.next_probe(), None);
    assert_eq!(p.next_probe(), None);
    let mut p = ScanPlan::new(0, u32::MAX, vec![], true, 7);
    assert_eq!(p.next_probe(), None);
}

#[test]
fn sequential_plan_ends_after_the_last_address() {
    let mut p = ScanPlan::new(u32::MAX - 1, u32::MAX, vec![80, 443], false, 0);
    let mut got = Vec::new();
    while let Some(x) = p.next_probe() {
        got.push(x);
        assert!(got.len() <= 4, "the scan did not end");
    }
    assert_eq!(got, vec![(u32::MAX - 1, 80), (u32::MAX - 1, 443), (u32::MAX, 80), (u32::MAX, 443)]);
    assert_eq!(p.next_probe(), None);
}

#[test]
fn random_plan_follows_the_walk() {
    let mut p = ScanPlan::new(0, u32::MAX, vec![80, 81], true, 0);
    assert_eq!(p.next_probe(), Some((3, 80)));
    assert_eq!(p.next_probe(), Some((3, 81)));
    assert_eq!(p.next_probe(), Some((9, 80)));
}

#[test]
fn random_plan_skips_addresses_outside_the_range() {
    let mut p = ScanPlan::new(10, u32::MAX, vec![1], true, 0);
    assert_eq!(p.next_probe(), Some((27, 1)));
}

#[test]
fn started_plans_stay_in_range() {
    let mut p = ScanPlan::start(ip(10, 0, 0, 0), ip(10, 0, 0, 3), vec![7], false);
    let mut n = 0;
    while let Some((a, port)) = p.next_probe() {
        assert!(ip(10, 0, 0, 0) <= a && a <= ip(10, 0, 0, 3));
        assert_eq!(port, 7);
        n += 1;
    }
    assert_eq!(n, 4);
    let mut p = ScanPlan::start(0, u32::MAX, vec![7], true);
    assert!(p.next_probe().is_some());
}

#[test]
fn random_plan_never_repeats_a_pair() {
    let mut p = ScanPlan::new(0, u32::MAX, vec![22, 80, 443], true, 12345);
    let mut seen = HashSet::new();
    for _ in 0..30_000 {
        let x = p.next_probe().unwrap();
        assert!(seen.insert(x), "repeated {:?}", x);
    }
}

#[test]
fn sequential_plan_sweeps_address_by_address() {
    let ports = vec![3, 1, 2];
    let mut p = ScanPlan::new(100, 104, ports.clone(), false, 0);
    let mut expected = Vec::new();
    for a in 100u32..=104 {
        for &q in &ports {
            expected.push((a, q));
        }
    }
    let mut got = Vec::new();
    while let Some(x) = p.next_probe() {
        got.push(x);
    }
    assert_eq!(got, expected);
}

#[test]
fn permutation_multipliers_are_primitive_roots() {
    // r generates the group modulo p = 2^32 + 15 when r^((p-1)/q) != 1 for
    // every prime q dividing p - 1 = 2 * 3^2 * 5 * 131 * 364289.
    fn pow_mod(mut b: u128, mut e: u128, m: u128) -> u128 {
        let mut r = 1u128;
        b %= m;
        while e > 0 {
            if e & 1 == 1 {
                r = r * b % m;
            }
            b = b * b % m;
            e >>= 1;
        }
        r
    }
    let p: u128 = 4294967311;
    for seed in 0u64..6 {
        let mut g = PermutationGen::new(seed);
        // the walk from 1 yields the multiplier first
        let r = if seed == 0 { g.next().unwrap() as u128 } else {
            let mut h = PermutationGen::new(6 * 100 + seed);
            (h.next().unwrap() as u128) / (6 * 100 + seed as u128)
        };
        let _ = g.next();
        assert_eq!(pow_mod(r, p - 1, p), 1);
        for q in [2u128, 3, 5, 131, 364289] {
            assert_ne!(pow_mod(r, (p - 1) / q, p), 1, "multiplier {}", r);
        }
    }
}
