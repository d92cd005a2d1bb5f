//! The Internet checksum (RFC 1071) of IPv4 headers and TCP segments.

use vstd::prelude::*;

verus! {

/// Sum of the big-endian 16-bit words of `s`; an odd last byte is the high
/// byte of a word whose low byte is zero.
pub open spec fn word_sum(s: Seq<u8>) -> nat
    decreases s.len(),
{
    if s.len() == 0 {
        0
    } else if s.len() == 1 {
        (s[0] * 256) as nat
    } else {
        (s[0] * 256 + s[1] + word_sum(s.skip(2))) as nat
    }
}

/// End-around-carry folding of a sum into 16 bits.
pub open spec fn fold16(x: nat) -> nat
    decreases x,
{
    if x < 65536 {
        x
    } else {
        proof {
            lemma_fold_step(x);
        }
        fold16(x % 65536 + x / 65536)
    }
}

pub proof fn lemma_fold_step(x: nat)
    requires
        x >= 65536,
    ensures
        x % 65536 + x / 65536 < x,
        (x % 65536 + x / 65536) % 65535 == x % 65535,
{
    let q = x / 65536;
    let r = x % 65536;
    assert(x == 65536 * q + r);
    assert(q >= 1);
    assert((r + q) % 65535 == (65536 * q + r) % 65535) by (nonlinear_arith)
        requires
            q >= 0,
            r >= 0,
    {
        assert(65536 * q + r == 65535 * q + (r + q));
        vstd::arithmetic::div_mod::lemma_mod_multiples_vanish(q as int, (r + q) as int, 65535);
    }
}

/// Folding keeps the value modulo 65535, gives at most 65535, and gives 0
/// only for 0.
pub proof fn lemma_fold16(x: nat)
    ensures
        fold16(x) <= 65535,
        fold16(x) % 65535 == x % 65535,
        x > 0 ==> fold16(x) > 0,
    decreases x,
{
    if x >= 65536 {
        lemma_fold_step(x);
        lemma_fold16(x % 65536 + x / 65536);
    }
}

/// The Internet checksum of a word sum: the ones' complement of its fold.
pub open spec fn checksum_of(sum: nat) -> u16 {
    (65535 - fold16(sum)) as u16
}

/// Folds a 32-bit running sum.
fn fold_sum(sum: u32) -> (r: u32)
    ensures
        r == fold16(sum as nat),
{
    let mut s = sum;
    while (s >> 16) != 0
        invariant
            fold16(s as nat) == fold16(sum as nat),
        decreases s,
    {
        proof {
            assert((s >> 16) != 0 ==> s >= 65536) by (bit_vector);
            assert(s & 0xFFFF == s % 65536) by (bit_vector);
            assert(s >> 16 == s / 65536) by (bit_vector);
            lemma_fold_step(s as nat);
        }
        s = (s & 0xFFFF) + (s >> 16);
    }
    proof {
        assert((s >> 16) == 0 ==> s < 65536) by (bit_vector);
    }
    s
}

/// Adds the word sum of `data` to `start`.
fn add_words(start: u32, data: &[u8]) -> (r: u32)
    requires
        start + word_sum(data@) <= u32::MAX,
    ensures
        r == start + word_sum(data@),
{
    let mut sum = start;
    let mut i: usize = 0;
    proof {
        assert(data@.skip(0) =~= data@);
    }
    while i < data.len()
        invariant
            i <= data.len(),
            sum + word_sum(data@.skip(i as int)) == start + word_sum(data@),
            start + word_sum(data@) <= u32::MAX,
        decreases data.len() - i,
    {
        let ghost rest = data@.skip(i as int);
        assert(rest[0] == data[i as int]);
        if i + 1 < data.len() {
            let word: u16 = ((data[i] as u16) << 8) | (data[i + 1] as u16);
            proof {
                let a = data[i as int];
                let b = data[i + 1];
                assert(rest[1] == b);
                assert((((a as u16) << 8) | (b as u16)) == a * 256 + b) by (bit_vector);
                assert(rest.skip(2) =~= data@.skip(i + 2));
            }
            sum = sum + word as u32;
            i = i + 2;
        } else {
            let word: u16 = (data[i] as u16) << 8;
            proof {
                let a = data[i as int];
                assert(((a as u16) << 8) == a * 256) by (bit_vector);
                assert(rest.len() == 1);
                assert(data@.skip(i + 1).len() == 0);
            }
            sum = sum + word as u32;
            i = i + 1;
        }
    }
    sum
}

/// Checksum of an IPv4 header (with its checksum field zeroed beforehand).
pub fn ip_checksum(hdr: &[u8]) -> (r: u16)
    requires
        word_sum(hdr@) <= u32::MAX,
    ensures
        r == checksum_of(word_sum(hdr@)),
{
    let sum = add_words(0, hdr);
    let f = fold_sum(sum);
    proof {
        lemma_fold16(sum as nat);
        assert(f <= 65535 ==> !(f as u16) == (65535 - f) as u16) by (bit_vector);
    }
    !(f as u16)
}

/// Sum of the TCP pseudo-header: both addresses as 16-bit words, the
/// protocol number 6 and the segment length taken modulo 2^32.
pub open spec fn pseudo_sum(src: u32, dst: u32, len: nat) -> nat {
    (src / 65536 + src % 65536 + dst / 65536 + dst % 65536 + 6 + len % 4294967296) as nat
}

/// Checksum of a TCP segment from `src` to `dst`, over the pseudo-header
/// and the segment (with its checksum field zeroed beforehand).
pub fn tcp_checksum(src: u32, dst: u32, tcp: &[u8]) -> (r: u16)
    requires
        pseudo_sum(src, dst, tcp@.len()) + word_sum(tcp@) <= u32::MAX,
    ensures
        r == checksum_of(pseudo_sum(src, dst, tcp@.len()) + word_sum(tcp@)),
{
    proof {
        assert(src >> 16 == src / 65536) by (bit_vector);
        assert(src & 0xFFFF == src % 65536) by (bit_vector);
        assert(dst >> 16 == dst / 65536) by (bit_vector);
        assert(dst & 0xFFFF == dst % 65536) by (bit_vector);
    }
    let mut sum: u32 = 0;
    sum = sum + (src >> 16);
    sum = sum + (src & 0xFFFF);
    sum = sum + (dst >> 16);
    sum = sum + (dst & 0xFFFF);
    sum = sum + 6;
    let n: u64 = tcp.len() as u64;
    let len32 = (#[verifier::truncate] (n as u32));
    proof {
        assert(len32 == n % 4294967296) by (bit_vector)
            requires
                len32 == n as u32,
        ;
    }
    sum = sum + len32;
    let sum = add_words(sum, tcp);
    let f = fold_sum(sum);
    proof {
        lemma_fold16(sum as nat);
        assert(f <= 65535 ==> !(f as u16) == (65535 - f) as u16) by (bit_vector);
    }
    !(f as u16)
}

/// Changing the word at an even position changes the word sum by the
/// difference of the words.
pub proof fn lemma_word_sum_update(s: Seq<u8>, pos: int, a: u8, b: u8)
    requires
        0 <= pos,
        pos % 2 == 0,
        pos + 1 < s.len(),
    ensures
        word_sum(s.update(pos, a).update(pos + 1, b)) + s[pos] * 256 + s[pos + 1] == word_sum(s)
            + a * 256 + b,
    decreases pos,
{
    let t = s.update(pos, a).update(pos + 1, b);
    if pos == 0 {
        assert(t.skip(2) =~= s.skip(2));
    } else {
        lemma_word_sum_update(s.skip(2), pos - 2, a, b);
        assert(t.skip(2) =~= s.skip(2).update(pos - 2, a).update(pos - 1, b));
        assert(t[0] == s[0]);
        assert(t[1] == s[1]);
    }
}

/// Adding the checksum of a sum to the sum gives a sum whose checksum is 0.
pub proof fn lemma_checksum_closes(sum: nat)
    ensures
        checksum_of(sum + checksum_of(sum) as nat) == 0,
{
    lemma_fold16(sum);
    let c = (65535 - fold16(sum)) as nat;
    assert(checksum_of(sum) as nat == c);
    let t = sum + c;
    lemma_fold16(t);
    assert(t > 0) by {
        if sum == 0 {
            assert(fold16(0) == 0);
        }
    }
    assert(t % 65535 == 0) by {
        vstd::arithmetic::div_mod::lemma_add_mod_noop(sum as int, c as int, 65535);
        vstd::arithmetic::div_mod::lemma_add_mod_noop(fold16(sum) as int, c as int, 65535);
        assert(fold16(sum) + c == 65535);
    }
    assert(fold16(t) == 65535);
}

} // verus!
