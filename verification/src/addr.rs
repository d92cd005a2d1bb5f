//! IPv4 addresses as `u32` values: parsing and dotted-decimal text.

use vstd::prelude::*;
use crate::text::{
    all_digits, decimal, decimal_value, digit_char, digit_value, find_char, has_char, is_digit, lemma_find_char,
    lemma_find_char_at, lemma_split_step, next_char, push_char, push_decimal, split_on,
};

verus! {

/// A valid group of an IPv4 address text: one to three decimal digits, no
/// leading zero unless the group is `0`, value at most 255.
pub open spec fn octet_ok(g: Seq<char>) -> bool {
    &&& 1 <= g.len() <= 3
    &&& all_digits(g)
    &&& (g.len() == 1 || g[0] != '0')
    &&& decimal_value(g) <= 255
}

/// The address that `s` denotes in dotted-decimal form, as
/// `Ipv4Addr::from_str` reads it; `None` where it refuses `s`.
pub open spec fn parse_ipv4(s: Seq<char>) -> Option<u32> {
    let g = split_on(s, '.');
    if g.len() == 4 && octet_ok(g[0]) && octet_ok(g[1]) && octet_ok(g[2]) && octet_ok(g[3]) {
        Some(
            (decimal_value(g[0]) * 16777216 + decimal_value(g[1]) * 65536 + decimal_value(g[2])
                * 256 + decimal_value(g[3])) as u32,
        )
    } else {
        None
    }
}

/// Dotted-decimal text of `a`, as `Ipv4Addr`'s `Display` writes it.
pub open spec fn ipv4_text(a: u32) -> Seq<char> {
    decimal((a / 16777216) as nat) + seq!['.'] + decimal(((a / 65536) % 256) as nat) + seq!['.']
        + decimal(((a / 256) % 256) as nat) + seq!['.'] + decimal((a % 256) as nat)
}

pub proof fn lemma_split_on_len(s: Seq<char>, c: char)
    ensures
        split_on(s, c).len() >= 1,
        has_char(s, c) ==> split_on(s, c).len() >= 2,
        !has_char(s, c) ==> split_on(s, c) == seq![s],
    decreases s.len(),
{
    lemma_find_char(s, c);
    match find_char(s, c) {
        Some(i) => {
            lemma_split_on_len(s.skip(i + 1), c);
        },
        None => {},
    }
}

/// Checks `v[lo..hi]` as one address group.
fn octet_at(v: &Vec<char>, lo: usize, hi: usize) -> (r: Option<u32>)
    requires
        lo <= hi <= v.len(),
    ensures
        r matches Some(x) ==> octet_ok(v@.subrange(lo as int, hi as int)) && x == decimal_value(
            v@.subrange(lo as int, hi as int),
        ),
        r is None ==> !octet_ok(v@.subrange(lo as int, hi as int)),
{
    let ghost g = v@.subrange(lo as int, hi as int);
    if hi - lo < 1 || hi - lo > 3 {
        return None;
    }
    if hi - lo > 1 && v[lo] == '0' {
        assert(g[0] == v@[lo as int]);
        return None;
    }
    let mut acc: u32 = 0;
    let mut i = lo;
    while i < hi
        invariant
            lo <= i <= hi <= v.len(),
            hi - lo <= 3,
            g == v@.subrange(lo as int, hi as int),
            forall|j: int| lo <= j < i ==> is_digit(#[trigger] v@[j]),
            acc == decimal_value(v@.subrange(lo as int, i as int)),
            i - lo == 0 ==> acc == 0,
            i - lo == 1 ==> acc < 10,
            i - lo == 2 ==> acc < 100,
            i - lo == 3 ==> acc < 1000,
        decreases hi - i,
    {
        let c = v[i];
        if !('0' <= c && c <= '9') {
            assert(g[i - lo] == c);
            return None;
        }
        let ghost prev = v@.subrange(lo as int, i as int);
        let ghost next = v@.subrange(lo as int, i + 1);
        assert(next.drop_last() =~= prev);
        acc = acc * 10 + (c as u32 - '0' as u32);
        i = i + 1;
    }
    assert(g =~= v@.subrange(lo as int, i as int));
    assert forall|j: int| 0 <= j < g.len() implies is_digit(#[trigger] g[j]) by {
        assert(g[j] == v@[j + lo]);
    }
    if hi - lo > 1 {
        assert(g[0] == v@[lo as int]);
    }
    if acc > 255 {
        return None;
    }
    Some(acc)
}

/// Parses `v[lo..hi]` as an IPv4 address.
pub fn parse_ipv4_at(v: &Vec<char>, lo: usize, hi: usize) -> (r: Option<u32>)
    requires
        lo <= hi <= v.len(),
    ensures
        r == parse_ipv4(v@.subrange(lo as int, hi as int)),
{
    let ghost s = v@.subrange(lo as int, hi as int);
    // first group
    let j0 = next_char(v, lo, hi, '.');
    proof { lemma_split_step(v@, lo as int, j0 as int, hi as int, '.'); }
    if j0 == hi {
        return None;
    }
    let j1 = next_char(v, j0 + 1, hi, '.');
    proof { lemma_split_step(v@, j0 + 1, j1 as int, hi as int, '.'); }
    if j1 == hi {
        return None;
    }
    let j2 = next_char(v, j1 + 1, hi, '.');
    proof { lemma_split_step(v@, j1 + 1, j2 as int, hi as int, '.'); }
    if j2 == hi {
        return None;
    }
    let j3 = next_char(v, j2 + 1, hi, '.');
    proof {
        lemma_split_step(v@, j2 + 1, j3 as int, hi as int, '.');
        if j3 < hi {
            lemma_split_on_len(v@.subrange(j3 + 1, hi as int), '.');
        }
    }
    let ghost g = split_on(s, '.');
    if j3 < hi {
        assert(g.len() >= 5);
        return None;
    }
    assert(g =~= seq![v@.subrange(lo as int, j0 as int), v@.subrange(j0 + 1, j1 as int),
        v@.subrange(j1 + 1, j2 as int), v@.subrange(j2 + 1, hi as int)]);
    let a = match octet_at(v, lo, j0) { Some(x) => x, None => { return None; } };
    let b = match octet_at(v, j0 + 1, j1) { Some(x) => x, None => { return None; } };
    let c = match octet_at(v, j1 + 1, j2) { Some(x) => x, None => { return None; } };
    let d = match octet_at(v, j2 + 1, hi) { Some(x) => x, None => { return None; } };
    Some(a * 16777216 + b * 65536 + c * 256 + d)
}

/// Appends the dotted-decimal text of `a`.
pub fn push_ipv4(out: &mut String, a: u32)
    ensures
        final(out)@ == old(out)@ + ipv4_text(a),
{
    push_decimal(out, (a / 16777216) as u64);
    push_char(out, '.');
    push_decimal(out, ((a / 65536) % 256) as u64);
    push_char(out, '.');
    push_decimal(out, ((a / 256) % 256) as u64);
    push_char(out, '.');
    push_decimal(out, (a % 256) as u64);
    assert(final(out)@ =~= old(out)@ + ipv4_text(a));
}

/// The dotted-decimal text of `a`.
pub fn ipv4_string(a: u32) -> (r: String)
    ensures
        r@ == ipv4_text(a),
{
    let mut out = String::new();
    push_ipv4(&mut out, a);
    assert(out@ =~= ipv4_text(a));
    out
}

pub proof fn lemma_decimal(n: nat)
    ensures
        decimal(n).len() >= 1,
        all_digits(decimal(n)),
        decimal_value(decimal(n)) == n,
        !has_char(decimal(n), '.'),
        n > 0 ==> decimal(n)[0] != '0',
        n < 10 ==> decimal(n).len() == 1,
        n < 100 ==> decimal(n).len() <= 2,
        n < 1000 ==> decimal(n).len() <= 3,
    decreases n,
{
    if n < 10 {
        assert(decimal(n).drop_last() =~= Seq::<char>::empty());
        assert(decimal_value(Seq::<char>::empty()) == 0);
    } else {
        lemma_decimal(n / 10);
        let x = decimal(n / 10);
        let d = digit_char(n % 10);
        assert(decimal(n) == x.push(d));
        assert(x.push(d).drop_last() =~= x);
        assert(x.push(d)[0] == x[0]);
        assert forall|i: int| 0 <= i < x.push(d).len() implies is_digit(#[trigger] x.push(d)[i]) by {
            if i < x.len() {
                assert(x.push(d)[i] == x[i]);
            }
        }
        if has_char(x.push(d), '.') {
            let i = choose|i: int| 0 <= i < x.push(d).len() && x.push(d)[i] == '.';
            if i < x.len() {
                assert(x.push(d)[i] == x[i]);
            }
        }
    }
}

pub proof fn lemma_split_joined(x: Seq<char>, y: Seq<char>)
    requires
        !has_char(x, '.'),
    ensures
        split_on(x + seq!['.'] + y, '.') == seq![x] + split_on(y, '.'),
{
    let s = x + seq!['.'] + y;
    assert forall|j: int| 0 <= j < x.len() implies s[j] != '.' by {
        assert(s[j] == x[j]);
    }
    assert(s[x.len() as int] == '.');
    lemma_find_char_at(s, '.', x.len() as int);
    assert(s.take(x.len() as int) =~= x);
    assert(s.skip(x.len() as int + 1) =~= y);
}

pub proof fn lemma_octets(a: u32)
    ensures
        a == (a / 16777216) * 16777216 + ((a / 65536) % 256) * 65536 + ((a / 256) % 256) * 256 + a
            % 256,
        a / 16777216 < 256,
{
    assert(a == (a / 16777216) * 16777216 + ((a / 65536) % 256) * 65536 + ((a / 256) % 256) * 256
        + a % 256) by (bit_vector);
    assert(a / 16777216 < 256) by (bit_vector);
}

/// Reading back the text of an address gives the address.
pub proof fn lemma_ipv4_roundtrip(a: u32)
    ensures
        parse_ipv4(ipv4_text(a)) == Some(a),
{
    let n0 = (a / 16777216) as nat;
    let n1 = ((a / 65536) % 256) as nat;
    let n2 = ((a / 256) % 256) as nat;
    let n3 = (a % 256) as nat;
    lemma_octets(a);
    lemma_decimal(n0);
    lemma_decimal(n1);
    lemma_decimal(n2);
    lemma_decimal(n3);
    let x0 = decimal(n0);
    let x1 = decimal(n1);
    let x2 = decimal(n2);
    let x3 = decimal(n3);
    let t2 = x2 + seq!['.'] + x3;
    let t1 = x1 + seq!['.'] + t2;
    assert(ipv4_text(a) =~= x0 + seq!['.'] + t1);
    lemma_split_joined(x0, t1);
    lemma_split_joined(x1, t2);
    lemma_split_joined(x2, x3);
    crate::addr::lemma_split_on_len(x3, '.');
    let g = split_on(ipv4_text(a), '.');
    assert(g =~= seq![x0, x1, x2, x3]);
}

/// The pieces `ps` joined with `c` between them.
spec fn join_on(ps: Seq<Seq<char>>, c: char) -> Seq<char>
    decreases ps.len(),
{
    if ps.len() == 0 {
        Seq::empty()
    } else if ps.len() == 1 {
        ps[0]
    } else {
        ps[0] + seq![c] + join_on(ps.drop_first(), c)
    }
}

proof fn lemma_split_join(s: Seq<char>, c: char)
    ensures
        join_on(split_on(s, c), c) == s,
    decreases s.len(),
{
    lemma_find_char(s, c);
    match find_char(s, c) {
        Some(i) => {
            let rest = s.skip(i + 1);
            lemma_split_join(rest, c);
            lemma_split_on_len(rest, c);
            let ps = split_on(s, c);
            assert(ps == seq![s.take(i)] + split_on(rest, c));
            assert(ps.drop_first() =~= split_on(rest, c));
            assert(s =~= s.take(i) + seq![c] + rest);
        },
        None => {},
    }
}

proof fn lemma_leading_digit_positive(g: Seq<char>)
    requires
        g.len() >= 1,
        all_digits(g),
        g[0] != '0',
    ensures
        decimal_value(g) >= 1,
    decreases g.len(),
{
    if g.len() > 1 {
        let p = g.drop_last();
        assert(p[0] == g[0]);
        assert forall|i: int| 0 <= i < p.len() implies is_digit(#[trigger] p[i]) by {
            assert(p[i] == g[i]);
        }
        lemma_leading_digit_positive(p);
    }
}

/// Digits without a leading zero are the decimal text of their value.
proof fn lemma_decimal_canonical(g: Seq<char>)
    requires
        g.len() >= 1,
        all_digits(g),
        g.len() == 1 || g[0] != '0',
    ensures
        decimal(decimal_value(g)) == g,
    decreases g.len(),
{
    let p = g.drop_last();
    let d = digit_value(g.last());
    assert(is_digit(g[g.len() - 1]));
    assert(d < 10);
    assert(digit_char(d) == g.last());
    if g.len() == 1 {
        assert(decimal_value(p) == 0);
        assert(decimal(d) =~= g);
    } else {
        assert(p[0] == g[0]);
        assert forall|i: int| 0 <= i < p.len() implies is_digit(#[trigger] p[i]) by {
            assert(p[i] == g[i]);
        }
        lemma_leading_digit_positive(p);
        lemma_decimal_canonical(p);
        let v = decimal_value(p);
        let n = v * 10 + d;
        assert(n / 10 == v && n % 10 == d) by (nonlinear_arith)
            requires
                n == v * 10 + d,
                d < 10,
        ;
        assert(decimal(n) == decimal(v).push(digit_char(d)));
        assert(p.push(g.last()) =~= g);
    }
}

/// The dotted-decimal text of an address is unique: every text that
/// parses as an address is the text of that address.
pub proof fn lemma_ipv4_canonical(s: Seq<char>)
    requires
        parse_ipv4(s) is Some,
    ensures
        ipv4_text(parse_ipv4(s).unwrap()) == s,
{
    let g = split_on(s, '.');
    let v0 = decimal_value(g[0]);
    let v1 = decimal_value(g[1]);
    let v2 = decimal_value(g[2]);
    let v3 = decimal_value(g[3]);
    let sum = v0 * 16777216 + v1 * 65536 + v2 * 256 + v3;
    assert(sum < 4294967296 && sum / 16777216 == v0 && (sum / 65536) % 256 == v1 && (sum / 256)
        % 256 == v2 && sum % 256 == v3) by (nonlinear_arith)
        requires
            sum == v0 * 16777216 + v1 * 65536 + v2 * 256 + v3,
            v0 <= 255,
            v1 <= 255,
            v2 <= 255,
            v3 <= 255,
    ;
    let a = parse_ipv4(s).unwrap();
    assert(a == sum);
    lemma_decimal_canonical(g[0]);
    lemma_decimal_canonical(g[1]);
    lemma_decimal_canonical(g[2]);
    lemma_decimal_canonical(g[3]);
    lemma_split_join(s, '.');
    assert(g.drop_first().drop_first().drop_first() =~= seq![g[3]]);
    let g1 = g.drop_first();
    let g2 = g1.drop_first();
    let g3 = g2.drop_first();
    assert(join_on(g3, '.') == g[3]);
    assert(join_on(g2, '.') == g[2] + seq!['.'] + g[3]);
    assert(join_on(g1, '.') == g[1] + seq!['.'] + (g[2] + seq!['.'] + g[3]));
    assert(join_on(g, '.') == g[0] + seq!['.'] + (g[1] + seq!['.'] + (g[2] + seq!['.'] + g[3])));
    assert(ipv4_text(a) =~= s);
}

} // verus!
