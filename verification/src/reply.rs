//! Replies to probes: reading a received frame and deciding what it says
//! about the probed port.

use vstd::prelude::*;
use crate::addr::{ipv4_string, ipv4_text};
use crate::packet::{be16, be32, cookie, encode_seq, EPHEMERAL_HIGH, EPHEMERAL_LOW};
use crate::addr::lemma_octets;
use crate::results::{
    guess_os_from_ttl, os_of_ttl, service_name, service_of, PortStatus, ResultView, ScanResult,
};

verus! {

/// The fields of a received IPv4/TCP frame that the receiver reads.
#[derive(PartialEq, Eq, Structural, Clone, Copy, Debug)]
pub struct ReplyFields {
    pub src_ip: u32,
    pub ttl: u8,
    pub remote_port: u16,
    pub local_port: u16,
    pub ack: u32,
    pub flags: u8,
}

pub open spec fn be16_at(s: Seq<u8>, i: int) -> nat {
    (s[i] * 256 + s[i + 1]) as nat
}

pub open spec fn be32_at(s: Seq<u8>, i: int) -> u32 {
    (s[i] * 16777216 + s[i + 1] * 65536 + s[i + 2] * 256 + s[i + 3]) as u32
}

/// The TCP segment inside an IPv4 packet, as the packet's `payload` gives
/// it: from the end of the header (at least 20 bytes) to the end that the
/// total length gives, cut at the end of the bytes at hand.
pub open spec fn ip_payload(ip: Seq<u8>) -> Seq<u8> {
    let hl = (ip[0] % 16) as int;
    let start = 20 + (if hl * 4 > 20 { hl * 4 - 20 } else { 0 });
    let total = be16_at(ip, 2) as int;
    let len = if total > hl * 4 { total - hl * 4 } else { 0 };
    let end = if start + len < ip.len() { start + len } else { ip.len() as int };
    if ip.len() <= start {
        Seq::empty()
    } else {
        ip.subrange(start, end)
    }
}

/// The reply fields of frame `f`: an Ethernet frame of EtherType IPv4
/// holding an IPv4 packet (at least 20 bytes) of protocol TCP whose
/// payload holds a TCP header (at least 20 bytes); `None` otherwise.
pub open spec fn parse_reply(f: Seq<u8>) -> Option<ReplyFields> {
    if f.len() < 14 || be16_at(f, 12) != 0x0800 {
        None
    } else {
        let ip = f.skip(14);
        if ip.len() < 20 || ip[9] != 6 {
            None
        } else {
            let tcp = ip_payload(ip);
            if tcp.len() < 20 {
                None
            } else {
                Some(
                    ReplyFields {
                        src_ip: be32_at(ip, 12),
                        ttl: ip[8],
                        remote_port: be16_at(tcp, 0) as u16,
                        local_port: be16_at(tcp, 2) as u16,
                        ack: be32_at(tcp, 8),
                        flags: tcp[13],
                    },
                )
            }
        }
    }
}

/// Reads the reply fields of a received frame.
pub fn read_reply(frame: &[u8]) -> (r: Option<ReplyFields>)
    ensures
        r == parse_reply(frame@),
{
    if frame.len() < 14 {
        return None;
    }
    let ethertype = (frame[12] as u32) * 256 + (frame[13] as u32);
    if ethertype != 0x0800 {
        return None;
    }
    let ghost ip = frame@.skip(14);
    let n = frame.len() - 14;
    if n < 20 || frame[14 + 9] != 6 {
        return None;
    }
    let hl = (frame[14] % 16) as usize;
    let start: usize = 20 + (if hl * 4 > 20 { hl * 4 - 20 } else { 0 });
    let total = (frame[14 + 2] as usize) * 256 + (frame[14 + 3] as usize);
    let len: usize = if total > hl * 4 { total - hl * 4 } else { 0 };
    let end: usize = if start + len < n { start + len } else { n };
    if n <= start || end - start < 20 {
        proof {
            if !(n <= start) {
                assert(ip_payload(ip).len() == end - start);
            }
        }
        return None;
    }
    let t = 14 + start;
    let ghost tcp = ip_payload(ip);
    assert(tcp =~= frame@.subrange(t as int, 14 + end));
    let src_ip = (frame[14 + 12] as u32) * 16777216 + (frame[14 + 13] as u32) * 65536 + (frame[14
        + 14] as u32) * 256 + (frame[14 + 15] as u32);
    let remote_port = ((frame[t] as u32) * 256 + (frame[t + 1] as u32)) as u16;
    let local_port = ((frame[t + 2] as u32) * 256 + (frame[t + 3] as u32)) as u16;
    let ack = (frame[t + 8] as u32) * 16777216 + (frame[t + 9] as u32) * 65536 + (frame[t + 10]
        as u32) * 256 + (frame[t + 11] as u32);
    Some(
        ReplyFields {
            src_ip,
            ttl: frame[14 + 8],
            remote_port,
            local_port,
            ack,
            flags: frame[t + 13],
        },
    )
}

/// Whether the flag bit `bit` (a power of two) is set in `flags`.
pub open spec fn has_flag(flags: u8, bit: u8) -> bool {
    (flags / bit) % 2 == 1
}

/// TCP flag SYN.
pub const SYN: u8 = 0b0000_0010;

/// TCP flag RST.
pub const RST: u8 = 0b0000_0100;

/// TCP flag ACK.
pub const ACK: u8 = 0b0001_0000;

/// What the flags of a reply say of the port: SYN and ACK, open; else
/// RST, closed; else nothing.
pub open spec fn reply_status(flags: u8) -> Option<PortStatus> {
    if has_flag(flags, SYN) && has_flag(flags, ACK) {
        Some(PortStatus::Open)
    } else if has_flag(flags, RST) {
        Some(PortStatus::Closed)
    } else {
        None
    }
}

/// `x + 1` modulo 2^32.
pub open spec fn next_seq(x: u32) -> u32 {
    ((x + 1) % 4294967296) as u32
}

/// What the receiver makes of frame `f` at scanner address `src_ip` and
/// time `ts`: a finding for the sender's address and port when `f` is a
/// TCP reply to an ephemeral port whose acknowledgement number is the
/// cookie of the probe it answers plus one, with SYN+ACK or RST set.
pub open spec fn reply_outcome(f: Seq<u8>, src_ip: u32, ts: u64) -> Option<ResultView> {
    match parse_reply(f) {
        None => None,
        Some(r) => if !(EPHEMERAL_LOW <= r.local_port < EPHEMERAL_HIGH) {
            None
        } else if r.ack != next_seq(cookie(src_ip, r.src_ip, r.local_port, r.remote_port)) {
            None
        } else {
            match reply_status(r.flags) {
                None => None,
                Some(st) => Some(
                    ResultView {
                        ip: ipv4_text(r.src_ip),
                        port: r.remote_port,
                        status: st,
                        service: service_of(r.remote_port),
                        version: None,
                        banner: None,
                        ttl: Some(r.ttl),
                        timestamp: ts,
                        os_guess: Some(os_of_ttl(r.ttl)),
                    },
                ),
            }
        },
    }
}

/// Decides what a received frame says: the finding it carries, or `None`
/// when it is no valid reply to one of this scanner's probes.
pub fn process_frame(frame: &[u8], src_ip: u32, timestamp: u64) -> (r: Option<ScanResult>)
    ensures
        r matches Some(x) ==> reply_outcome(frame@, src_ip, timestamp) == Some(x@),
        r is None ==> reply_outcome(frame@, src_ip, timestamp) is None,
{
    let f = match read_reply(frame) {
        Some(f) => f,
        None => {
            return None;
        },
    };
    if !(EPHEMERAL_LOW <= f.local_port && f.local_port < EPHEMERAL_HIGH) {
        return None;
    }
    let expected = encode_seq(src_ip, f.src_ip, f.local_port, f.remote_port);
    if f.ack != expected.wrapping_add(1) {
        return None;
    }
    let flags = f.flags;
    proof {
        assert(flags & 2 != 0 <==> (flags / 2) % 2 == 1) by (bit_vector);
        assert(flags & 16 != 0 <==> (flags / 16) % 2 == 1) by (bit_vector);
        assert(flags & 4 != 0 <==> (flags / 4) % 2 == 1) by (bit_vector);
    }
    let status = if (flags & SYN != 0) && (flags & ACK != 0) {
        PortStatus::Open
    } else if flags & RST != 0 {
        PortStatus::Closed
    } else {
        return None;
    };
    let ttl = f.ttl;
    Some(
        ScanResult {
            ip: ipv4_string(f.src_ip),
            port: f.remote_port,
            status,
            service: String::from_str(service_name(f.remote_port)),
            version: None,
            banner: None,
            ttl: Some(ttl),
            timestamp,
            os_guess: guess_os_from_ttl(ttl),
        },
    )
}

/// A reply frame: Ethernet header `eth`, then an IPv4 header (length 5,
/// total length 40, TTL `ttl`, protocol TCP) from `from_ip` to `to_ip`,
/// then a TCP header from `from_port` to `to_port` with acknowledgement
/// number `ack` and flags `flags`.
pub open spec fn reply_frame(
    eth: Seq<u8>,
    from_ip: u32,
    to_ip: u32,
    from_port: u16,
    to_port: u16,
    ack: u32,
    flags: u8,
    ttl: u8,
) -> Seq<u8> {
    eth + (seq![0x45u8, 0, 0, 40, 0, 0, 0, 0, ttl, 6, 0, 0] + be32(from_ip) + be32(to_ip)) + (be16(
        from_port as nat,
    ) + be16(to_port as nat) + seq![0u8, 0, 0, 0] + be32(ack) + seq![
        0x50u8,
        flags,
        0,
        0,
        0,
        0,
        0,
        0,
    ])
}

/// A reply from the probed host and port to the probe's source port that
/// acknowledges the probe's cookie plus one, with SYN+ACK or RST, is
/// taken as a finding for exactly that host and port.
pub proof fn lemma_reply_to_probe_accepted(
    eth: Seq<u8>,
    src_ip: u32,
    dst_ip: u32,
    src_port: u16,
    dst_port: u16,
    flags: u8,
    ttl: u8,
    ts: u64,
)
    requires
        eth.len() == 14,
        eth[12] == 8,
        eth[13] == 0,
        EPHEMERAL_LOW <= src_port < EPHEMERAL_HIGH,
        reply_status(flags) is Some,
    ensures
        reply_outcome(
            reply_frame(
                eth,
                dst_ip,
                src_ip,
                dst_port,
                src_port,
                next_seq(cookie(src_ip, dst_ip, src_port, dst_port)),
                flags,
                ttl,
            ),
            src_ip,
            ts,
        ) == Some(
            ResultView {
                ip: ipv4_text(dst_ip),
                port: dst_port,
                status: reply_status(flags).unwrap(),
                service: service_of(dst_port),
                version: None,
                banner: None,
                ttl: Some(ttl),
                timestamp: ts,
                os_guess: Some(os_of_ttl(ttl)),
            },
        ),
{
    let ack = next_seq(cookie(src_ip, dst_ip, src_port, dst_port));
    let f = reply_frame(eth, dst_ip, src_ip, dst_port, src_port, ack, flags, ttl);
    let ip = f.skip(14);
    let iph = seq![0x45u8, 0, 0, 40, 0, 0, 0, 0, ttl, 6, 0, 0] + be32(dst_ip) + be32(src_ip);
    let tcph = be16(dst_port as nat) + be16(src_port as nat) + seq![0u8, 0, 0, 0] + be32(ack)
        + seq![0x50u8, flags, 0, 0, 0, 0, 0, 0];
    assert(ip =~= iph + tcph);
    assert(ip_payload(ip) =~= tcph);
    lemma_octets(dst_ip);
    lemma_octets(ack);
    assert(be32_at(ip, 12) == dst_ip);
    assert(be32_at(tcph, 8) == ack);
    assert(be16_at(tcph, 0) == dst_port);
    assert(be16_at(tcph, 2) == src_port);
}

/// Every finding comes from a reply to an ephemeral port whose
/// acknowledgement number is the cookie of the probe that it answers plus
/// one.
pub proof fn lemma_accepted_reply_carries_cookie(f: Seq<u8>, src_ip: u32, ts: u64)
    requires
        reply_outcome(f, src_ip, ts) is Some,
    ensures
        parse_reply(f) matches Some(r) && EPHEMERAL_LOW <= r.local_port < EPHEMERAL_HIGH && r.ack
            == next_seq(cookie(src_ip, r.src_ip, r.local_port, r.remote_port)),
{
}

} // verus!
