//! Target specifications: an address or a CIDR block.

use vstd::prelude::*;
use vstd::arithmetic::power2::{pow2, lemma2_to64, lemma2_to64_rest};
use vstd::bits::{
    low_bits_mask, lemma_u32_low_bits_mask_is_mod, lemma_u32_pow2_no_overflow, lemma_u32_shl_is_mul,
};
use crate::text::{
    chars_of, decimal, find_char, next_char, parse_unsigned, parse_unsigned_at, push_chars,
    push_decimal,
};
use crate::addr::{ipv4_string, ipv4_text, lemma_ipv4_roundtrip, parse_ipv4, parse_ipv4_at};

verus! {

/// Number of addresses in a block with the given prefix length.
pub open spec fn block_size(prefix: nat) -> nat {
    pow2((32 - prefix) as nat)
}

/// First address of the block of length `prefix` that holds `base`.
pub open spec fn network_of(base: u32, prefix: nat) -> nat {
    (base as int - (base as int) % (block_size(prefix) as int)) as nat
}

/// Last address of the block of length `prefix` that holds `base`.
pub open spec fn broadcast_of(base: u32, prefix: nat) -> nat {
    (network_of(base, prefix) + block_size(prefix) - 1) as nat
}

/// The netmask of a prefix length: its top `prefix` bits set.
pub open spec fn netmask_of(prefix: nat) -> nat {
    (pow2(32) - block_size(prefix)) as nat
}

proof fn lemma_block(prefix: u32)
    requires
        prefix <= 32,
    ensures
        1 <= block_size(prefix as nat) <= 4294967296,
        prefix == 0 ==> block_size(prefix as nat) == 4294967296,
        prefix == 31 ==> block_size(prefix as nat) == 2,
        prefix == 32 ==> block_size(prefix as nat) == 1,
        prefix <= 30 ==> block_size(prefix as nat) >= 4,
        prefix >= 1 ==> ((1u32 << ((32 - prefix) as u32)) as nat) == block_size(prefix as nat),
        pow2(32) == 4294967296,
{
    lemma2_to64();
    lemma2_to64_rest();
    let k = (32 - prefix) as nat;
    if prefix >= 1 {
        lemma_u32_pow2_no_overflow(k);
        lemma_u32_shl_is_mul(1, k as u32);
    }
    if prefix < 30 {
        vstd::arithmetic::power2::lemma_pow2_strictly_increases(2, k);
    }
    if prefix >= 1 {
        vstd::arithmetic::power2::lemma_pow2_strictly_increases(k, 32);
    }
}

/// The netmask, network and broadcast address of the block of length
/// `prefix` around `base`.
pub fn block_bounds(base: u32, prefix: u32) -> (r: (u32, u32, u32))
    requires
        prefix <= 32,
    ensures
        r.0 == netmask_of(prefix as nat),
        r.1 == network_of(base, prefix as nat),
        r.2 == broadcast_of(base, prefix as nat),
{
    proof {
        lemma_block(prefix);
    }
    if prefix == 0 {
        proof {
            assert(base & 0 == 0) by (bit_vector);
            assert(0u32 | !0u32 == 0xffffffffu32) by (bit_vector);
            assert((base as int) % 4294967296int == base as int);
        }
        let mask: u32 = 0;
        return (mask, base & mask, (base & mask) | !mask);
    }
    let k: u32 = 32 - prefix;
    let one: u32 = 1u32 << k;
    let hm: u32 = one - 1;
    let mask: u32 = !hm;
    let network = base & mask;
    let broadcast = network | !mask;
    proof {
        assert(base & mask == base - (base & hm)) by (bit_vector)
            requires
                mask == !hm,
        ;
        lemma_u32_low_bits_mask_is_mod(base, k as nat);
        assert(hm == low_bits_mask(k as nat) as u32);
        assert((network | !mask) == network + hm) by (bit_vector)
            requires
                k < 32,
                one == 1u32 << k,
                hm == (one - 1) as u32,
                mask == !hm,
                network == base & mask,
        ;
        assert(mask == 0xffffffffu32 - hm) by (bit_vector)
            requires
                mask == !hm,
        ;
    }
    (mask, network, broadcast)
}

/// What `parse_target` gives for `t`: the first and last address of the
/// target, or the message of the error.
pub open spec fn target_range(t: Seq<char>) -> Result<(u32, u32), Seq<char>> {
    match find_char(t, '/') {
        Some(i) => {
            let ip = t.take(i);
            let pre = t.skip(i + 1);
            match parse_unsigned(pre, 4294967295) {
                None => Err("Invalid prefix length in '"@ + t + "'"@),
                Some(p) => if p > 32 {
                    Err("Prefix length "@ + decimal(p) + " exceeds 32"@)
                } else {
                    match parse_ipv4(ip) {
                        None => Err("Invalid IP address '"@ + ip + "'"@),
                        Some(b) => Ok((network_of(b, p) as u32, broadcast_of(b, p) as u32)),
                    }
                },
            }
        },
        None => match parse_ipv4(t) {
            None => Err("Invalid IP address '"@ + t + "'"@),
            Some(v) => Ok((v, v)),
        },
    }
}

/// Parses a target (`a.b.c.d` or `a.b.c.d/len`) into its first and last
/// address.
pub fn parse_target(target: &str) -> (r: Result<(u32, u32), String>)
    ensures
        r matches Ok(x) ==> target_range(target@) == Ok::<(u32, u32), Seq<char>>(x),
        r matches Err(e) ==> target_range(target@) == Err::<(u32, u32), Seq<char>>(e@),
{
    let v = chars_of(target);
    let n = v.len();
    let j = next_char(&v, 0, n, '/');
    assert(v@.subrange(0, n as int) =~= v@);
    if j < n {
        assert(v@.take(j as int) =~= v@.subrange(0, j as int));
        assert(v@.skip(j + 1) =~= v@.subrange(j + 1, n as int));
        match parse_unsigned_at(&v, j + 1, n, 4294967295) {
            None => {
                let mut e = String::from_str("Invalid prefix length in '");
                e.append(target);
                e.append("'");
                Err(e)
            },
            Some(p) => {
                if p > 32 {
                    let mut e = String::from_str("Prefix length ");
                    push_decimal(&mut e, p as u64);
                    e.append(" exceeds 32");
                    Err(e)
                } else {
                    match parse_ipv4_at(&v, 0, j) {
                        None => {
                            let mut e = String::from_str("Invalid IP address '");
                            push_chars(&mut e, &v, 0, j);
                            e.append("'");
                            Err(e)
                        },
                        Some(b) => {
                            let (_m, network, broadcast) = block_bounds(b, p);
                            Ok((network, broadcast))
                        },
                    }
                }
            },
        }
    } else {
        match parse_ipv4_at(&v, 0, n) {
            None => {
                let mut e = String::from_str("Invalid IP address '");
                e.append(target);
                e.append("'");
                Err(e)
            },
            Some(x) => Ok((x, x)),
        }
    }
}

/// Topology of a target: its block, netmask and usable host range.
#[derive(Debug, PartialEq, Eq)]
pub struct NetworkInfo {
    pub network_address: String,
    pub broadcast_address: String,
    pub netmask: String,
    pub cidr_prefix: u8,
    pub total_hosts: u64,
    pub host_range: (String, String),
}

/// The plain content of a `NetworkInfo`.
pub struct NetworkView {
    pub network_address: Seq<char>,
    pub broadcast_address: Seq<char>,
    pub netmask: Seq<char>,
    pub cidr_prefix: u8,
    pub total_hosts: u64,
    pub first_host: Seq<char>,
    pub last_host: Seq<char>,
}

impl View for NetworkInfo {
    type V = NetworkView;

    open spec fn view(&self) -> NetworkView {
        NetworkView {
            network_address: self.network_address@,
            broadcast_address: self.broadcast_address@,
            netmask: self.netmask@,
            cidr_prefix: self.cidr_prefix,
            total_hosts: self.total_hosts,
            first_host: self.host_range.0@,
            last_host: self.host_range.1@,
        }
    }
}

/// Number of usable hosts in a block: all addresses but the network and
/// broadcast address, except for the two smallest blocks.
pub open spec fn usable_hosts(prefix: nat) -> nat {
    if prefix == 32 {
        1
    } else if prefix == 31 {
        2
    } else {
        (block_size(prefix) - 2) as nat
    }
}

/// Whether `analyze_network` cannot handle `t`: a prefix length that
/// parses as a byte but exceeds 32, with a valid address.
pub open spec fn analysis_overflows(t: Seq<char>) -> bool {
    match find_char(t, '/') {
        Some(i) => match parse_unsigned(t.skip(i + 1), 255) {
            Some(p) => p > 32 && parse_ipv4(t.take(i)) is Some,
            None => false,
        },
        None => false,
    }
}

/// Whether `analyze_network` cannot handle `target`: a valid address with
/// a prefix length that is a byte above 32.
pub fn analysis_would_overflow(target: &str) -> (r: bool)
    ensures
        r == analysis_overflows(target@),
{
    let v = chars_of(target);
    let n = v.len();
    let j = next_char(&v, 0, n, '/');
    assert(v@.subrange(0, n as int) =~= v@);
    if j < n {
        assert(v@.take(j as int) =~= v@.subrange(0, j as int));
        assert(v@.skip(j + 1) =~= v@.subrange(j + 1, n as int));
        match parse_unsigned_at(&v, j + 1, n, 255) {
            Some(p) => p > 32 && parse_ipv4_at(&v, 0, j).is_some(),
            None => false,
        }
    } else {
        false
    }
}

/// Topology of the block of length `p` around `b`.
pub open spec fn block_view(b: u32, p: nat) -> NetworkView {
    let network = network_of(b, p);
    let broadcast = broadcast_of(b, p);
    let first = if p >= 31 { network } else { (network + 1) as nat };
    let last = if p >= 31 { broadcast } else { (broadcast - 1) as nat };
    NetworkView {
        network_address: ipv4_text(network as u32),
        broadcast_address: ipv4_text(broadcast as u32),
        netmask: ipv4_text(netmask_of(p) as u32),
        cidr_prefix: p as u8,
        total_hosts: usable_hosts(p) as u64,
        first_host: ipv4_text(first as u32),
        last_host: ipv4_text(last as u32),
    }
}

/// Describes the block of length `p` around `b`.
fn describe_block(b: u32, p: u32) -> (info: NetworkInfo)
    requires
        p <= 32,
    ensures
        info@ == block_view(b, p as nat),
{
    proof {
        lemma_block(p);
    }
    let (mask, network, broadcast) = block_bounds(b, p);
    proof {
        if p < 31 {
            vstd::bits::lemma_u64_shl_is_mul(1, (32 - p) as u64);
            vstd::bits::lemma_u64_pow2_no_overflow((32 - p) as nat);
        }
    }
    let total_hosts: u64 = if p == 32 {
        1
    } else if p == 31 {
        2
    } else {
        (1u64 << (32 - p) as u64) - 2
    };
    let first = if p >= 31 { network } else { network + 1 };
    let last = if p >= 31 { broadcast } else { broadcast - 1 };
    NetworkInfo {
        network_address: ipv4_string(network),
        broadcast_address: ipv4_string(broadcast),
        netmask: ipv4_string(mask),
        cidr_prefix: p as u8,
        total_hosts,
        host_range: (ipv4_string(first), ipv4_string(last)),
    }
}

/// What `analyze_network` gives for `t` (where it does not overflow).
pub open spec fn network_analysis(t: Seq<char>) -> Result<NetworkView, Seq<char>> {
    match find_char(t, '/') {
        Some(i) => match parse_unsigned(t.skip(i + 1), 255) {
            None => Err("Invalid prefix"@),
            Some(p) => match parse_ipv4(t.take(i)) {
                None => Err("invalid IPv4 address syntax"@),
                Some(b) => Ok(block_view(b, p)),
            },
        },
        None => Ok(
            NetworkView {
                network_address: t,
                broadcast_address: t,
                netmask: "255.255.255.255"@,
                cidr_prefix: 32,
                total_hosts: 1,
                first_host: t,
                last_host: t,
            },
        ),
    }
}

/// Describes the block of a target. A target without a prefix is taken
/// as a single host, as written.
pub fn analyze_network(target: &str) -> (r: Result<NetworkInfo, String>)
    requires
        !analysis_overflows(target@),
    ensures
        r matches Ok(info) ==> network_analysis(target@) == Ok::<NetworkView, Seq<char>>(info@),
        r matches Err(e) ==> network_analysis(target@) == Err::<NetworkView, Seq<char>>(e@),
{
    let v = chars_of(target);
    let n = v.len();
    let j = next_char(&v, 0, n, '/');
    assert(v@.subrange(0, n as int) =~= v@);
    if j < n {
        assert(v@.take(j as int) =~= v@.subrange(0, j as int));
        assert(v@.skip(j + 1) =~= v@.subrange(j + 1, n as int));
        let p = match parse_unsigned_at(&v, j + 1, n, 255) {
            None => {
                return Err(String::from_str("Invalid prefix"));
            },
            Some(p) => p,
        };
        let b = match parse_ipv4_at(&v, 0, j) {
            None => {
                return Err(String::from_str("invalid IPv4 address syntax"));
            },
            Some(b) => b,
        };
        Ok(describe_block(b, p))
    } else {
        let info = NetworkInfo {
            network_address: String::from_str(target),
            broadcast_address: String::from_str(target),
            netmask: String::from_str("255.255.255.255"),
            cidr_prefix: 32,
            total_hosts: 1,
            host_range: (String::from_str(target), String::from_str(target)),
        };
        Ok(info)
    }
}

/// A block holds the address it is written with: the network address is
/// at most that address, the broadcast address at least that address and
/// at most 255.255.255.255, and the block spans `block_size(prefix)`
/// addresses from a multiple of that size.
pub proof fn lemma_block_holds_base(b: u32, prefix: nat)
    requires
        prefix <= 32,
    ensures
        network_of(b, prefix) <= b <= broadcast_of(b, prefix) <= u32::MAX,
        broadcast_of(b, prefix) - network_of(b, prefix) + 1 == block_size(prefix),
        network_of(b, prefix) % block_size(prefix) == 0,
{
    lemma_block(prefix as u32);
    let sz = block_size(prefix) as int;
    let q = (b as int) / sz;
    let r = (b as int) % sz;
    vstd::arithmetic::div_mod::lemma_fundamental_div_mod(b as int, sz);
    assert(0 <= r < sz) by {
        vstd::arithmetic::div_mod::lemma_mod_bound(b as int, sz);
    }
    let k = (32 - prefix) as nat;
    vstd::arithmetic::power2::lemma_pow2_adds(k, prefix);
    let m = pow2(prefix) as int;
    assert(sz * m == 4294967296);
    assert(network_of(b, prefix) == sz * q);
    assert(q + 1 <= m) by (nonlinear_arith)
        requires
            sz * q <= b,
            b < 4294967296,
            sz * m == 4294967296,
            sz >= 1,
    ;
    assert(sz * q + sz <= 4294967296) by (nonlinear_arith)
        requires
            q + 1 <= m,
            sz * m == 4294967296,
            sz >= 1,
    ;
    assert((sz * q) % sz == 0) by {
        vstd::arithmetic::div_mod::lemma_mod_multiples_basic(q, sz);
        assert(q * sz == sz * q) by (nonlinear_arith);
    }
}

/// The analysis of a target names the range that a scan of it covers:
/// its network address is the first address of the scan and its broadcast
/// address the last.
pub proof fn lemma_analysis_matches_scan_range(t: Seq<char>)
    requires
        target_range(t) is Ok,
    ensures
        ({
            let (lo, hi) = target_range(t)->Ok_0;
            network_analysis(t) matches Ok(v) && v.network_address == ipv4_text(lo)
                && v.broadcast_address == ipv4_text(hi)
        }),
{
    match find_char(t, '/') {
        Some(i) => {
            let pre = t.skip(i + 1);
            assert(parse_unsigned(pre, 4294967295) matches Some(p) && p <= 32);
            assert(parse_unsigned(pre, 255) == parse_unsigned(pre, 4294967295));
            let p = parse_unsigned(pre, 255).unwrap();
            let b = parse_ipv4(t.take(i)).unwrap();
            lemma_block_holds_base(b, p);
        },
        None => {
            crate::addr::lemma_ipv4_canonical(t);
        },
    }
}

/// The usable hosts of an analysed block: every address the analysis
/// names reads back as an address; for a prefix below 31 the first usable
/// host is the address after the network address and the last the one
/// before the broadcast address, for /31 and /32 the range is the whole
/// block; the host range spans exactly `total_hosts` addresses, and the
/// block spans `2^(32 - prefix)` addresses from its network address, a
/// multiple of that size, and holds the address the target is written
/// with; the netmask has the top `prefix` bits set.
pub proof fn lemma_host_range(t: Seq<char>)
    requires
        find_char(t, '/') is Some,
        network_analysis(t) is Ok,
        !analysis_overflows(t),
    ensures
        ({
            let v = network_analysis(t)->Ok_0;
            let i = find_char(t, '/').unwrap();
            let base = parse_ipv4(t.take(i));
            let mask = parse_ipv4(v.netmask);
            let net = parse_ipv4(v.network_address);
            let bc = parse_ipv4(v.broadcast_address);
            let first = parse_ipv4(v.first_host);
            let last = parse_ipv4(v.last_host);
            &&& v.cidr_prefix <= 32
            &&& net is Some && bc is Some && first is Some && last is Some
            &&& v.cidr_prefix < 31 ==> first.unwrap() == net.unwrap() + 1 && last.unwrap()
                == bc.unwrap() - 1
            &&& v.cidr_prefix >= 31 ==> first == net && last == bc
            &&& last.unwrap() - first.unwrap() + 1 == v.total_hosts
            &&& bc.unwrap() - net.unwrap() + 1 == pow2((32 - v.cidr_prefix) as nat)
            &&& (net.unwrap() as nat) % pow2((32 - v.cidr_prefix) as nat) == 0
            &&& base is Some && net.unwrap() <= base.unwrap() <= bc.unwrap()
            &&& v.cidr_prefix as nat == parse_unsigned(t.skip(i + 1), 255).unwrap()
            &&& mask is Some && mask.unwrap() == pow2(32) - pow2((32 - v.cidr_prefix) as nat)
        }),
{
    let i = find_char(t, '/').unwrap();
    let p = parse_unsigned(t.skip(i + 1), 255).unwrap();
    let b = parse_ipv4(t.take(i)).unwrap();
    assert(p <= 32);
    let v = block_view(b, p);
    assert(network_analysis(t) == Ok::<NetworkView, Seq<char>>(v));
    lemma_block(p as u32);
    lemma_block_holds_base(b, p);
    let network = network_of(b, p);
    let broadcast = broadcast_of(b, p);
    let first = if p >= 31 { network } else { (network + 1) as nat };
    let last = if p >= 31 { broadcast } else { (broadcast - 1) as nat };
    lemma_ipv4_roundtrip(network as u32);
    lemma_ipv4_roundtrip(broadcast as u32);
    lemma_ipv4_roundtrip(first as u32);
    lemma_ipv4_roundtrip(last as u32);
    lemma_ipv4_roundtrip(netmask_of(p) as u32);
}

} // verus!
