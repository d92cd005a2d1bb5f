//! Probe frames (Ethernet + IPv4 + TCP SYN) and the SYN cookie that ties
//! replies to probes.

use vstd::prelude::*;
use crate::checksum::{
    checksum_of, ip_checksum, lemma_checksum_closes, lemma_word_sum_update, pseudo_sum,
    tcp_checksum, word_sum,
};
use crate::random::random_u16;
use std::hash::{Hash, Hasher};

verus! {

/// Key mixed into every cookie.
pub const SIP_KEY: u64 = 0xDEAD_BEEF_C0FF_EEEE;

/// Lowest source port of a probe.
pub const EPHEMERAL_LOW: u16 = 40000;

/// One past the highest source port of a probe.
pub const EPHEMERAL_HIGH: u16 = 65000;

/// Two bytes of `x`, most significant first.
pub open spec fn be16(x: nat) -> Seq<u8> {
    seq![(x / 256) as u8, (x % 256) as u8]
}

/// Four bytes of `x`, most significant first.
pub open spec fn be32(x: u32) -> Seq<u8> {
    seq![
        (x / 16777216) as u8,
        ((x / 65536) % 256) as u8,
        ((x / 256) % 256) as u8,
        (x % 256) as u8,
    ]
}

/// Ethernet header: destination, source, EtherType IPv4.
pub open spec fn eth_header(dst_mac: Seq<u8>, src_mac: Seq<u8>) -> Seq<u8> {
    dst_mac + src_mac + seq![8u8, 0u8]
}

/// The fixed part of a probe's IPv4 header: version 4, header length 5,
/// total length 40, don't-fragment, TTL 64, protocol TCP, the source
/// address; identification, checksum and destination zero.
pub open spec fn ip_template(src: u32) -> Seq<u8> {
    seq![0x45u8, 0, 0, 40, 0, 0, 0x40, 0, 64, 6, 0, 0] + be32(src) + seq![0u8, 0, 0, 0]
}

/// The fixed part of a probe's TCP header: data offset 5, flag SYN,
/// window 65535; ports, sequence, acknowledgement, checksum and urgent
/// pointer zero.
pub open spec fn tcp_template() -> Seq<u8> {
    seq![0u8, 0, 0, 0, 0, 0, 0, 0, 0, 0, 0, 0, 0x50, 0x02, 0xff, 0xff, 0, 0, 0, 0]
}

/// A probe's IPv4 header before its checksum is filled in.
pub open spec fn ip_unsummed(src: u32, dst: u32, id: u16) -> Seq<u8> {
    seq![0x45u8, 0, 0, 40] + be16(id as nat) + seq![0x40u8, 0, 64, 6, 0, 0] + be32(src) + be32(dst)
}

/// A probe's IPv4 header.
pub open spec fn ip_header(src: u32, dst: u32, id: u16) -> Seq<u8> {
    let h = ip_unsummed(src, dst, id);
    let c = checksum_of(word_sum(h));
    h.update(10, (c / 256) as u8).update(11, (c % 256) as u8)
}

/// A probe's TCP header before its checksum is filled in.
pub open spec fn tcp_unsummed(src_port: u16, dst_port: u16, seq: u32) -> Seq<u8> {
    be16(src_port as nat) + be16(dst_port as nat) + be32(seq) + seq![
        0u8,
        0,
        0,
        0,
        0x50,
        0x02,
        0xff,
        0xff,
        0,
        0,
        0,
        0,
    ]
}

/// A probe's TCP header, with the checksum over the pseudo-header of
/// `src` and `dst`.
pub open spec fn tcp_header(src: u32, dst: u32, src_port: u16, dst_port: u16, seq: u32) -> Seq<u8> {
    let t = tcp_unsummed(src_port, dst_port, seq);
    let c = checksum_of(pseudo_sum(src, dst, 20) + word_sum(t));
    t.update(16, (c / 256) as u8).update(17, (c % 256) as u8)
}

/// Word sums are at most 65535 per word.
pub proof fn lemma_word_sum_bound(s: Seq<u8>)
    ensures
        word_sum(s) <= 65535 * ((s.len() + 1) / 2),
    decreases s.len(),
{
    if s.len() >= 2 {
        lemma_word_sum_bound(s.skip(2));
        assert((s.skip(2).len() + 1) / 2 + 1 == (s.len() + 1) / 2);
    }
}

/// Ready-made headers for the probes of one scan: the Ethernet header and
/// the fixed parts of the IPv4 and TCP headers.
pub struct PacketTemplate {
    eth_hdr: Vec<u8>,
    ip_tmpl: Vec<u8>,
    tcp_tmpl: Vec<u8>,
    src_ip: u32,
}

impl PacketTemplate {
    #[verifier::type_invariant]
    spec fn well_formed(self) -> bool {
        &&& self.eth_hdr@.len() == 14
        &&& self.eth_hdr@[12] == 8
        &&& self.eth_hdr@[13] == 0
        &&& self.ip_tmpl@ == ip_template(self.src_ip)
        &&& self.tcp_tmpl@ == tcp_template()
    }

    /// The Ethernet header of every probe.
    pub closed spec fn ethernet(&self) -> Seq<u8> {
        self.eth_hdr@
    }

    /// The source address of every probe.
    pub closed spec fn source(&self) -> u32 {
        self.src_ip
    }

    /// The source address of every probe.
    pub fn source_ip(&self) -> (r: u32)
        ensures
            r == self.source(),
    {
        self.src_ip
    }

    /// Templates for probes from `src_mac`/`src_ip` to the next hop
    /// `dst_mac`.
    pub fn new(src_mac: [u8; 6], src_ip: u32, dst_mac: [u8; 6]) -> (t: Self)
        ensures
            t.ethernet() == eth_header(dst_mac@, src_mac@),
            t.source() == src_ip,
    {
        let mut eth: Vec<u8> = Vec::new();
        let mut i: usize = 0;
        while i < 6
            invariant
                i <= 6,
                eth@ == dst_mac@.take(i as int),
            decreases 6 - i,
        {
            eth.push(dst_mac[i]);
            i = i + 1;
            assert(eth@ =~= dst_mac@.take(i as int));
        }
        let mut i: usize = 0;
        while i < 6
            invariant
                i <= 6,
                eth@ == dst_mac@ + src_mac@.take(i as int),
            decreases 6 - i,
        {
            eth.push(src_mac[i]);
            i = i + 1;
            assert(eth@ =~= dst_mac@ + src_mac@.take(i as int));
        }
        eth.push(8);
        eth.push(0);
        assert(eth@ =~= eth_header(dst_mac@, src_mac@));
        let ip: Vec<u8> = vec![
            0x45u8,
            0,
            0,
            40,
            0,
            0,
            0x40,
            0,
            64,
            6,
            0,
            0,
            (src_ip / 16777216) as u8,
            ((src_ip / 65536) % 256) as u8,
            ((src_ip / 256) % 256) as u8,
            (src_ip % 256) as u8,
            0,
            0,
            0,
            0,
        ];
        assert(ip@ =~= ip_template(src_ip));
        let tcp: Vec<u8> = vec![0u8, 0, 0, 0, 0, 0, 0, 0, 0, 0, 0, 0, 0x50, 0x02, 0xff, 0xff, 0, 0, 0, 0];
        assert(tcp@ =~= tcp_template());
        PacketTemplate { eth_hdr: eth, ip_tmpl: ip, tcp_tmpl: tcp, src_ip }
    }
}

/// Copies a byte vector.
fn copy_bytes(v: &Vec<u8>) -> (r: Vec<u8>)
    ensures
        r@ == v@,
{
    let mut r: Vec<u8> = Vec::new();
    let mut i: usize = 0;
    while i < v.len()
        invariant
            i <= v.len(),
            r@ == v@.take(i as int),
        decreases v.len() - i,
    {
        r.push(v[i]);
        i = i + 1;
        assert(r@ =~= v@.take(i as int));
    }
    assert(r@ =~= v@);
    r
}

/// Writes `x` big-endian at `pos`.
fn set_be16(buf: &mut Vec<u8>, pos: usize, x: u16)
    requires
        pos + 2 <= old(buf).len(),
    ensures
        final(buf)@ == old(buf)@.update(pos as int, be16(x as nat)[0]).update(pos + 1, be16(x as nat)[1]),
{
    buf.set(pos, (x / 256) as u8);
    buf.set(pos + 1, (x % 256) as u8);
}

/// Writes `x` big-endian at `pos`.
fn set_be32(buf: &mut Vec<u8>, pos: usize, x: u32)
    requires
        pos + 4 <= old(buf).len(),
    ensures
        final(buf)@ == old(buf)@.update(pos as int, be32(x)[0]).update(pos + 1, be32(x)[1]).update(
            pos + 2,
            be32(x)[2],
        ).update(pos + 3, be32(x)[3]),
{
    buf.set(pos, (x / 16777216) as u8);
    buf.set(pos + 1, ((x / 65536) % 256) as u8);
    buf.set(pos + 2, ((x / 256) % 256) as u8);
    buf.set(pos + 3, (x % 256) as u8);
}

/// Appends `src` to `dst`.
fn append_bytes(dst: &mut Vec<u8>, src: &Vec<u8>)
    ensures
        final(dst)@ == old(dst)@ + src@,
{
    let mut i: usize = 0;
    while i < src.len()
        invariant
            i <= src.len(),
            dst@ == old(dst)@ + src@.take(i as int),
        decreases src.len() - i,
    {
        dst.push(src[i]);
        i = i + 1;
        assert(dst@ =~= old(dst)@ + src@.take(i as int));
    }
    assert(src@.take(src.len() as int) =~= src@);
}

impl PacketTemplate {
    /// The probe frame to `dst_ip:dst_port` from `src_port` with sequence
    /// number `seq` and IPv4 identification `id`.
    pub fn generate_with_id(&self, dst_ip: u32, dst_port: u16, seq: u32, src_port: u16, id: u16) -> (r: Vec<u8>)
        ensures
            r@ == self.ethernet() + ip_header(self.source(), dst_ip, id) + tcp_header(
                self.source(),
                dst_ip,
                src_port,
                dst_port,
                seq,
            ),
    {
        proof {
            use_type_invariant(self);
        }
        let mut pkt: Vec<u8> = Vec::with_capacity(54);
        append_bytes(&mut pkt, &self.eth_hdr);

        let mut ip = copy_bytes(&self.ip_tmpl);
        set_be32(&mut ip, 16, dst_ip);
        set_be16(&mut ip, 4, id);
        set_be16(&mut ip, 10, 0);
        let ghost h = ip_unsummed(self.src_ip, dst_ip, id);
        assert(ip@ =~= h);
        proof {
            lemma_word_sum_bound(ip@);
        }
        let ck = ip_checksum(ip.as_slice());
        set_be16(&mut ip, 10, ck);
        assert(ip@ =~= ip_header(self.src_ip, dst_ip, id));
        append_bytes(&mut pkt, &ip);

        let mut tcp = copy_bytes(&self.tcp_tmpl);
        set_be16(&mut tcp, 2, dst_port);
        set_be16(&mut tcp, 0, src_port);
        set_be32(&mut tcp, 4, seq);
        set_be16(&mut tcp, 16, 0);
        let ghost t = tcp_unsummed(src_port, dst_port, seq);
        assert(tcp@ =~= t);
        proof {
            lemma_word_sum_bound(tcp@);
        }
        let ck = tcp_checksum(self.src_ip, dst_ip, tcp.as_slice());
        set_be16(&mut tcp, 16, ck);
        assert(tcp@ =~= tcp_header(self.src_ip, dst_ip, src_port, dst_port, seq));
        append_bytes(&mut pkt, &tcp);
        pkt
    }

    /// The probe frame to `dst_ip:dst_port` from `src_port` with sequence
    /// number `seq`; its IPv4 identification is drawn at random.
    pub fn generate(&self, dst_ip: u32, dst_port: u16, seq: u32, src_port: u16) -> (r: Vec<u8>)
        ensures
            exists|id: u16|
                r@ == self.ethernet() + ip_header(self.source(), dst_ip, id) + tcp_header(
                    self.source(),
                    dst_ip,
                    src_port,
                    dst_port,
                    seq,
                ),
    {
        let id = random_u16();
        self.generate_with_id(dst_ip, dst_port, seq, src_port, id)
    }
}

/// The IPv4 header of every probe carries a valid checksum: summing the
/// header with its checksum in place gives the all-ones word.
pub proof fn lemma_probe_ip_checksum_valid(src: u32, dst: u32, id: u16)
    ensures
        checksum_of(word_sum(ip_header(src, dst, id))) == 0,
{
    let h = ip_unsummed(src, dst, id);
    let c = checksum_of(word_sum(h));
    assert(h[10] == 0 && h[11] == 0);
    lemma_word_sum_update(h, 10, (c / 256) as u8, (c % 256) as u8);
    lemma_checksum_closes(word_sum(h));
}

/// The TCP header of every probe carries a valid checksum over the
/// pseudo-header of its addresses.
pub proof fn lemma_probe_tcp_checksum_valid(src: u32, dst: u32, src_port: u16, dst_port: u16, seq: u32)
    ensures
        checksum_of(pseudo_sum(src, dst, 20) + word_sum(tcp_header(src, dst, src_port, dst_port, seq)))
            == 0,
{
    let t = tcp_unsummed(src_port, dst_port, seq);
    let p = pseudo_sum(src, dst, 20);
    let c = checksum_of(p + word_sum(t));
    assert(t[16] == 0 && t[17] == 0);
    lemma_word_sum_update(t, 16, (c / 256) as u8, (c % 256) as u8);
    lemma_checksum_closes(p + word_sum(t));
}

/// What hashing the address pair, the port pair and the key with the
/// standard library's `DefaultHasher` gives.
pub uninterp spec fn default_hash(src_ip: u32, dst_ip: u32, src_port: u16, dst_port: u16, key: u64) -> u64;

/// `DefaultHasher::new()` fed the two addresses (as `Ipv4Addr`), the two
/// ports and the key, in that order, then `finish()`. Every
/// `DefaultHasher::new()` starts from the same fixed keys (no per-process
/// seed), so within a build of the standard library on one byte order the
/// value is a function of these arguments; that is what the name claims.
/// The standard library leaves the hashing algorithm unspecified across
/// releases and writes integers in native byte order, so the value may
/// differ between builds or targets. Nothing is stated of the value itself.
#[verifier::external_body]
fn hash_probe(src_ip: u32, dst_ip: u32, src_port: u16, dst_port: u16, key: u64) -> (h: u64)
    ensures
        h == default_hash(src_ip, dst_ip, src_port, dst_port, key),
{
    let mut hasher = std::collections::hash_map::DefaultHasher::new();
    core::net::Ipv4Addr::from(src_ip).hash(&mut hasher);
    core::net::Ipv4Addr::from(dst_ip).hash(&mut hasher);
    src_port.hash(&mut hasher);
    dst_port.hash(&mut hasher);
    key.hash(&mut hasher);
    hasher.finish()
}

/// The 32-bit cookie of a 64-bit hash: the sum of its halves modulo 2^32.
pub open spec fn fold_hash_spec(h: u64) -> u32 {
    ((h / 4294967296 + h % 4294967296) % 4294967296) as u32
}

/// Folds a 64-bit hash into a 32-bit cookie.
pub fn fold_hash(h: u64) -> (r: u32)
    ensures
        r == fold_hash_spec(h),
{
    let hi = (h >> 32) as u32;
    let lo = (#[verifier::truncate] (h as u32));
    proof {
        assert(hi == h / 4294967296) by (bit_vector)
            requires
                hi == (h >> 32) as u32,
        ;
        assert(lo == h % 4294967296) by (bit_vector)
            requires
                lo == h as u32,
        ;
    }
    hi.wrapping_add(lo)
}

/// The cookie of a probe: its initial sequence number, which a reply
/// acknowledges plus one.
pub open spec fn cookie(src_ip: u32, dst_ip: u32, src_port: u16, dst_port: u16) -> u32 {
    fold_hash_spec(default_hash(src_ip, dst_ip, src_port, dst_port, SIP_KEY))
}

/// The SYN cookie of the probe from `src_ip:src_port` to
/// `dst_ip:dst_port`.
pub fn encode_seq(src_ip: u32, dst_ip: u32, src_port: u16, dst_port: u16) -> (r: u32)
    ensures
        r == cookie(src_ip, dst_ip, src_port, dst_port),
{
    let h = hash_probe(src_ip, dst_ip, src_port, dst_port, SIP_KEY);
    fold_hash(h)
}

} // verus!
