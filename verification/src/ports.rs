//! Port lists: single ports, comma-separated lists and ranges.

use vstd::prelude::*;
use crate::text::{
    chars_of, find_char, lemma_split_step, next_char, parse_unsigned, parse_unsigned_at, split_on,
    trim, trim_bounds,
};

verus! {

/// Whether port `p` is named by one comma-separated piece of a port list:
/// the piece, trimmed, is a port or a range `lo-hi` of ports, with
/// `0 < lo <= hi`; port 0 is never named.
pub open spec fn part_names_port(part: Seq<char>, p: int) -> bool {
    let t = trim(part);
    match find_char(t, '-') {
        Some(i) => match (parse_unsigned(t.take(i), 65535), parse_unsigned(t.skip(i + 1), 65535)) {
            (Some(lo), Some(hi)) => 0 < lo && lo <= hi && lo <= p && p <= hi,
            _ => false,
        },
        None => match parse_unsigned(t, 65535) {
            Some(v) => v > 0 && p == v,
            None => false,
        },
    }
}

/// Whether port `p` is named anywhere in the port list `s`.
pub open spec fn lists_port(s: Seq<char>, p: int) -> bool {
    exists|i: int| 0 <= i < split_on(s, ',').len() && part_names_port(#[trigger] split_on(s, ',')[i], p)
}

/// Marks the ports that `v[lo..hi]` names.
fn mark_part(v: &Vec<char>, lo: usize, hi: usize, marks: &mut Vec<bool>)
    requires
        lo <= hi <= v.len(),
        old(marks).len() == 65536,
    ensures
        final(marks).len() == 65536,
        forall|q: int|
            0 <= q < 65536 ==> (#[trigger] final(marks)@[q] <==> (old(marks)@[q] || part_names_port(
                v@.subrange(lo as int, hi as int),
                q,
            ))),
{
    let ghost part = v@.subrange(lo as int, hi as int);
    let (a, b) = trim_bounds(v, lo, hi);
    let ghost t = v@.subrange(a as int, b as int);
    let d = next_char(v, a, b, '-');
    if d < b {
        assert(t.take(d - a) =~= v@.subrange(a as int, d as int));
        assert(t.skip(d - a + 1) =~= v@.subrange(d + 1, b as int));
        let first = parse_unsigned_at(v, a, d, 65535);
        let last = parse_unsigned_at(v, d + 1, b, 65535);
        match (first, last) {
            (Some(x), Some(y)) => {
                if x > 0 && x <= y {
                    let mut q: u32 = x;
                    while q <= y
                        invariant
                            0 < x <= y <= 65535,
                            x <= q <= y + 1,
                            marks.len() == 65536,
                            part_names_port(part, 0) == false,
                            forall|r: int|
                                0 <= r < 65536 ==> (#[trigger] marks@[r] <==> (old(marks)@[r] || (x
                                    <= r < q))),
                        decreases y + 1 - q,
                    {
                        marks.set(q as usize, true);
                        q = q + 1;
                    }
                }
            },
            _ => {},
        }
    } else {
        match parse_unsigned_at(v, a, b, 65535) {
            Some(x) => {
                if x > 0 {
                    marks.set(x as usize, true);
                }
            },
            None => {},
        }
    }
}

/// Parses a port list (`80`, `22,80,443`, `1-1024`, or a mix) into the
/// ports it names, in increasing order, each once. Pieces that do not
/// parse are skipped.
pub fn parse_ports(s: &str) -> (r: Vec<u16>)
    ensures
        forall|i: int, j: int| 0 <= i < j < r.len() ==> r[i] < r[j],
        forall|p: u16| r@.contains(p) <==> lists_port(s@, p as int),
{
    let v = chars_of(s);
    let n = v.len();
    let mut marks: Vec<bool> = Vec::new();
    let mut z: usize = 0;
    while z < 65536
        invariant
            z <= 65536,
            marks.len() == z,
            forall|q: int| 0 <= q < z ==> !(#[trigger] marks@[q]),
        decreases 65536 - z,
    {
        marks.push(false);
        z = z + 1;
    }
    let ghost parts = split_on(v@, ',');
    assert(v@.subrange(0, n as int) =~= v@);
    assert(parts.skip(0) =~= parts);
    let mut pos: usize = 0;
    let ghost mut k: int = 0;
    loop
        invariant_except_break
            0 <= k < parts.len(),
            split_on(v@.subrange(pos as int, n as int), ',') == parts.skip(k),
        invariant
            pos <= n == v.len(),
            parts == split_on(v@, ','),
            marks.len() == 65536,
            forall|q: int|
                0 <= q < 65536 ==> (#[trigger] marks@[q] <==> exists|i: int|
                    0 <= i < k && part_names_port(#[trigger] parts[i], q)),
        ensures
            k == parts.len(),
        decreases n - pos,
    {
        let j = next_char(&v, pos, n, ',');
        proof {
            lemma_split_step(v@, pos as int, j as int, n as int, ',');
            assert(parts.skip(k)[0] == parts[k]);
        }
        let ghost before = marks@;
        mark_part(&v, pos, j, &mut marks);
        proof {
            assert forall|q: int| 0 <= q < 65536 implies (#[trigger] marks@[q] <==> exists|i: int|
                0 <= i < k + 1 && part_names_port(#[trigger] parts[i], q)) by {
                if marks@[q] && !before[q] {
                    assert(part_names_port(parts[k], q));
                }
            }
        }
        if j == n {
            proof {
                assert(parts.skip(k).len() == 1);
                k = k + 1;
            }
            break;
        }
        proof {
            assert(parts.skip(k + 1) =~= parts.skip(k).skip(1));
            assert(parts.skip(k).skip(1) =~= split_on(v@.subrange(j + 1, n as int), ','));
            k = k + 1;
        }
        pos = j + 1;
    }
    assert(k == parts.len());
    let mut out: Vec<u16> = Vec::new();
    let mut q: usize = 1;
    while q < 65536
        invariant
            1 <= q <= 65536,
            marks.len() == 65536,
            forall|i: int, j: int| 0 <= i < j < out.len() ==> out[i] < out[j],
            forall|i: int| 0 <= i < out.len() ==> 1 <= #[trigger] out[i] < q,
            forall|p: int| 1 <= p < q ==> (marks@[p] <==> out@.contains(p as u16)),
        decreases 65536 - q,
    {
        let ghost prev = out@;
        if marks[q] {
            out.push(q as u16);
        }
        proof {
            assert forall|p: int| 1 <= p < q + 1 implies (marks@[p] <==> out@.contains(p as u16)) by {
                if p < q {
                    if out@.contains(p as u16) {
                        let i = choose|i: int| 0 <= i < out.len() && out@[i] == p as u16;
                        if i < prev.len() {
                            assert(prev[i] == out@[i]);
                        }
                    }
                    if prev.contains(p as u16) {
                        let i = choose|i: int| 0 <= i < prev.len() && prev[i] == p as u16;
                        assert(out@[i] == prev[i]);
                    }
                } else if marks@[p] {
                    assert(out@[out.len() - 1] == q as u16);
                } else {
                    if out@.contains(p as u16) {
                        let i = choose|i: int| 0 <= i < out.len() && out@[i] == p as u16;
                        assert(prev[i] == out@[i]);
                    }
                }
            }
        }
        q = q + 1;
    }
    proof {
        assert forall|p: u16| out@.contains(p) <==> lists_port(s@, p as int) by {
            if out@.contains(p) {
                let i = choose|i: int| 0 <= i < out.len() && out@[i] == p;
                assert(1 <= out[i]);
                assert(marks@[p as int]);
                let w = choose|w: int| 0 <= w < k && part_names_port(#[trigger] parts[w], p as int);
                assert(split_on(s@, ',')[w] == parts[w]);
            }
            if lists_port(s@, p as int) {
                let w = choose|w: int|
                    0 <= w < split_on(s@, ',').len() && part_names_port(
                        #[trigger] split_on(s@, ',')[w],
                        p as int,
                    );
                assert(parts[w] == split_on(s@, ',')[w]);
                assert(marks@[p as int]);
                assert(p >= 1);
            }
        }
    }
    out
}

} // verus!
