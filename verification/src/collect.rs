//! Gathering findings: one entry per target, ordered by address and port,
//! with what banner grabbing found attached.

use vstd::prelude::*;
use crate::addr::{parse_ipv4, parse_ipv4_at};
use crate::results::{PortStatus, ResultView, ScanResult};
use crate::text::chars_of;

verus! {

/// The plain contents of a list of findings.
pub open spec fn views(rs: Seq<ScanResult>) -> Seq<ResultView> {
    rs.map_values(|r: ScanResult| r@)
}

/// Whether `r` is a finding for `ip`:`port`.
pub open spec fn is_for(r: ResultView, ip: Seq<char>, port: u16) -> bool {
    r.ip == ip && r.port == port
}

/// Whether `r` is a finding for `ip`:`port` that counts: any, or only an
/// open one when `open_only` holds.
pub open spec fn counts_for(r: ResultView, ip: Seq<char>, port: u16, open_only: bool) -> bool {
    is_for(r, ip, port) && (!open_only || r.status == PortStatus::Open)
}

/// Index of the first finding in `rs` that counts for `ip`:`port`.
pub open spec fn first_for(rs: Seq<ResultView>, ip: Seq<char>, port: u16, open_only: bool) -> Option<
    int,
>
    decreases rs.len(),
{
    if rs.len() == 0 {
        None
    } else {
        match first_for(rs.drop_last(), ip, port, open_only) {
            Some(k) => Some(k),
            None => if counts_for(rs.last(), ip, port, open_only) {
                Some(rs.len() - 1)
            } else {
                None
            },
        }
    }
}

/// The finding kept for `ip`:`port`: the first open one, else the first.
pub open spec fn kept_index(rs: Seq<ResultView>, ip: Seq<char>, port: u16) -> Option<int> {
    match first_for(rs, ip, port, true) {
        Some(k) => Some(k),
        None => first_for(rs, ip, port, false),
    }
}

/// The position of a finding in the report order: by address (a text that
/// is no address counts as `0.0.0.0`), then by port.
pub open spec fn order_key(r: ResultView) -> int {
    (match parse_ipv4(r.ip) {
        Some(a) => a as int,
        None => 0,
    }) * 65536 + r.port
}

/// Whether `u` holds exactly one entry per target of `p`, each the one
/// kept for its target.
pub open spec fn merged_from(u: Seq<ResultView>, p: Seq<ResultView>) -> bool {
    &&& forall|i: int, j: int|
        0 <= i < j < u.len() ==> !is_for(#[trigger] u[i], #[trigger] u[j].ip, u[j].port)
    &&& forall|i: int|
        0 <= i < u.len() ==> (#[trigger] kept_index(p, u[i].ip, u[i].port) matches Some(k) && 0
            <= k < p.len() && u[i] == p[k])
    &&& forall|k: int| 0 <= k < p.len() ==> #[trigger] has_entry(u, p[k].ip, p[k].port)
}

/// Whether `u` has an entry for `ip`:`port`.
pub open spec fn has_entry(u: Seq<ResultView>, ip: Seq<char>, port: u16) -> bool {
    exists|i: int| 0 <= i < u.len() && #[trigger] is_for(u[i], ip, port)
}

/// Characterises `first_for`.
pub proof fn lemma_first_for(rs: Seq<ResultView>, ip: Seq<char>, port: u16, open_only: bool)
    ensures
        first_for(rs, ip, port, open_only) matches Some(k) ==> 0 <= k < rs.len() && counts_for(
            rs[k],
            ip,
            port,
            open_only,
        ) && forall|j: int| 0 <= j < k ==> !counts_for(#[trigger] rs[j], ip, port, open_only),
        first_for(rs, ip, port, open_only) is None ==> forall|j: int|
            0 <= j < rs.len() ==> !counts_for(#[trigger] rs[j], ip, port, open_only),
    decreases rs.len(),
{
    if rs.len() > 0 {
        let t = rs.drop_last();
        lemma_first_for(t, ip, port, open_only);
        assert forall|j: int| 0 <= j < t.len() implies t[j] == rs[j] by {}
    }
}

proof fn lemma_first_for_push(
    rs: Seq<ResultView>,
    x: ResultView,
    ip: Seq<char>,
    port: u16,
    open_only: bool,
)
    ensures
        first_for(rs.push(x), ip, port, open_only) == (match first_for(rs, ip, port, open_only) {
            Some(k) => Some(k),
            None => if counts_for(x, ip, port, open_only) {
                Some(rs.len() as int)
            } else {
                None
            },
        }),
{
    assert(rs.push(x).drop_last() =~= rs);
}

proof fn lemma_kept_push_other(rs: Seq<ResultView>, x: ResultView, ip: Seq<char>, port: u16)
    requires
        !is_for(x, ip, port),
    ensures
        kept_index(rs.push(x), ip, port) == kept_index(rs, ip, port),
{
    lemma_first_for_push(rs, x, ip, port, true);
    lemma_first_for_push(rs, x, ip, port, false);
}

/// The report position of a finding.
fn result_order_key(r: &ScanResult) -> (k: u64)
    ensures
        k == order_key(r@),
{
    let v = chars_of(r.ip.as_str());
    let n = v.len();
    assert(v@.subrange(0, n as int) =~= v@);
    let a: u32 = match parse_ipv4_at(&v, 0, n) {
        Some(a) => a,
        None => 0,
    };
    (a as u64) * 65536 + (r.port as u64)
}

/// One entry per target, as the findings in `results` give them: the
/// first open finding for the target if there is one, else its first
/// finding.
fn dedup_results(results: Vec<ScanResult>) -> (u: Vec<ScanResult>)
    ensures
        merged_from(views(u@), views(results@)),
{
    let ghost input = views(results@);
    let mut rest = results;
    let mut uniq: Vec<ScanResult> = Vec::new();
    let ghost mut done: int = 0;
    assert(input.skip(0) =~= input);
    assert(input.take(0) =~= Seq::<ResultView>::empty());
    while rest.len() > 0
        invariant
            0 <= done <= input.len(),
            input == views(results@),
            views(rest@) == input.skip(done),
            merged_from(views(uniq@), input.take(done)),
        decreases rest.len(),
    {
        let ghost p = input.take(done);
        let ghost u = views(uniq@);
        let ghost old_rest = rest@;
        proof {
            assert(views(old_rest).len() == old_rest.len());
            assert(done < input.len());
            assert(views(old_rest)[0] == old_rest[0]@);
        }
        let r = rest.remove(0);
        let ghost x = r@;
        proof {
            assert(rest@ =~= old_rest.drop_first());
            assert(input.skip(done)[0] == input[done]);
            assert(x == input[done]);
            assert(input.take(done + 1) =~= p.push(x));
            assert forall|j: int| 0 <= j < views(rest@).len() implies views(rest@)[j] == input.skip(done + 1)[j] by {
                assert(views(rest@)[j] == rest@[j]@);
                assert(rest@[j] == old_rest[j + 1]);
                assert(views(old_rest)[j + 1] == old_rest[j + 1]@);
                assert(input.skip(done)[j + 1] == input.skip(done + 1)[j]);
            }
            assert(views(rest@) =~= input.skip(done + 1));
        }
        let mut i: usize = 0;
        while i < uniq.len() && !(uniq[i].ip == r.ip && uniq[i].port == r.port)
            invariant
                i <= uniq.len(),
                u == views(uniq@),
                x == r@,
                forall|j: int| 0 <= j < i ==> !is_for(#[trigger] u[j], x.ip, x.port),
            decreases uniq.len() - i,
        {
            i = i + 1;
        }
        proof {
            lemma_first_for_push(p, x, x.ip, x.port, true);
            lemma_first_for_push(p, x, x.ip, x.port, false);
            assert forall|j: int| 0 <= j < u.len() && !is_for(u[j], x.ip, x.port) implies
                #[trigger] kept_index(p.push(x), u[j].ip, u[j].port) == kept_index(p, u[j].ip, u[j].port) by {
                lemma_kept_push_other(p, x, u[j].ip, u[j].port);
            }
        }
        if i == uniq.len() {
            proof {
                assert forall|k: int| 0 <= k < p.len() implies !counts_for(#[trigger] p[k], x.ip, x.port, false) by {
                    if is_for(p[k], x.ip, x.port) {
                        assert(has_entry(u, p[k].ip, p[k].port));
                        let w = choose|w: int| 0 <= w < u.len() && #[trigger] is_for(u[w], p[k].ip, p[k].port);
                        assert(!is_for(u[w], x.ip, x.port));
                    }
                }
                lemma_first_for(p, x.ip, x.port, false);
                lemma_first_for(p, x.ip, x.port, true);
                if let Some(k) = first_for(p, x.ip, x.port, true) {
                    assert(!counts_for(p[k], x.ip, x.port, false));
                }
            }
            uniq.push(r);
            proof {
                let u2 = views(uniq@);
                let p2 = p.push(x);
                assert(u2 =~= u.push(x));
                assert forall|a: int, b: int| 0 <= a < b < u2.len() implies !is_for(#[trigger] u2[a], #[trigger] u2[b].ip, u2[b].port) by {
                    if b == u.len() {
                        assert(u2[a] == u[a]);
                    } else {
                        assert(u2[a] == u[a] && u2[b] == u[b]);
                    }
                }
                assert forall|a: int| 0 <= a < u2.len() implies (#[trigger] kept_index(p2, u2[a].ip, u2[a].port) matches Some(k) && 0 <= k < p2.len() && u2[a] == p2[k]) by {
                    if a < u.len() {
                        assert(u2[a] == u[a]);
                        assert(kept_index(p, u[a].ip, u[a].port) matches Some(k) && 0 <= k < p.len() && u[a] == p[k]);
                    } else {
                        assert(kept_index(p2, x.ip, x.port) == Some(p.len() as int));
                    }
                }
                assert forall|k: int| 0 <= k < p2.len() implies #[trigger] has_entry(u2, p2[k].ip, p2[k].port) by {
                    if k < p.len() {
                        assert(p2[k] == p[k]);
                        assert(has_entry(u, p[k].ip, p[k].port));
                        let w = choose|w: int| 0 <= w < u.len() && #[trigger] is_for(u[w], p[k].ip, p[k].port);
                        assert(u2[w] == u[w]);
                        assert(is_for(u2[w], p2[k].ip, p2[k].port));
                    } else {
                        assert(is_for(u2[u.len() as int], p2[k].ip, p2[k].port));
                    }
                }
            }
        } else {
            proof {
                assert(is_for(u[i as int], x.ip, x.port));
                lemma_first_for(p, x.ip, x.port, true);
                lemma_first_for(p, x.ip, x.port, false);
            }
            if r.status == PortStatus::Open && uniq[i].status != PortStatus::Open {
                proof {
                    let k0 = kept_index(p, u[i as int].ip, u[i as int].port).unwrap();
                    assert(u[i as int] == p[k0]);
                    if let Some(k1) = first_for(p, x.ip, x.port, true) {
                        assert(p[k0] == p[k1]);
                    }
                    assert(kept_index(p.push(x), x.ip, x.port) == Some(p.len() as int));
                }
                uniq.set(i, r);
                proof {
                    let u2 = views(uniq@);
                    let p2 = p.push(x);
                    assert(u2 =~= u.update(i as int, x));
                    assert forall|a: int, b: int| 0 <= a < b < u2.len() implies !is_for(#[trigger] u2[a], #[trigger] u2[b].ip, u2[b].port) by {
                        assert(is_for(u2[a], u[a].ip, u[a].port));
                        assert(is_for(u2[b], u[b].ip, u[b].port));
                    }
                    assert forall|a: int| 0 <= a < u2.len() implies (#[trigger] kept_index(p2, u2[a].ip, u2[a].port) matches Some(k) && 0 <= k < p2.len() && u2[a] == p2[k]) by {
                        if a != i {
                            assert(u2[a] == u[a]);
                            assert(kept_index(p, u[a].ip, u[a].port) matches Some(k) && 0 <= k < p.len() && u[a] == p[k]);
                        }
                    }
                    assert forall|k: int| 0 <= k < p2.len() implies #[trigger] has_entry(u2, p2[k].ip, p2[k].port) by {
                        if k < p.len() {
                            assert(p2[k] == p[k]);
                            assert(has_entry(u, p[k].ip, p[k].port));
                            let w = choose|w: int| 0 <= w < u.len() && #[trigger] is_for(u[w], p[k].ip, p[k].port);
                            assert(is_for(u2[w], p2[k].ip, p2[k].port));
                        } else {
                            assert(is_for(u2[i as int], p2[k].ip, p2[k].port));
                        }
                    }
                }
            } else {
                proof {
                    let p2 = p.push(x);
                    let k0 = kept_index(p, u[i as int].ip, u[i as int].port).unwrap();
                    assert(u[i as int] == p[k0]);
                    if first_for(p, x.ip, x.port, true) is None {
                        assert(!counts_for(p[k0], x.ip, x.port, true));
                        assert(!counts_for(x, x.ip, x.port, true));
                    }
                    assert(kept_index(p2, x.ip, x.port) == kept_index(p, x.ip, x.port));
                    assert forall|a: int| 0 <= a < u.len() implies (#[trigger] kept_index(p2, u[a].ip, u[a].port) matches Some(k) && 0 <= k < p2.len() && u[a] == p2[k]) by {
                        assert(kept_index(p, u[a].ip, u[a].port) matches Some(k) && 0 <= k < p.len() && u[a] == p[k]);
                        if is_for(u[a], x.ip, x.port) {
                            assert(kept_index(p2, u[a].ip, u[a].port) == kept_index(p, u[a].ip, u[a].port));
                        }
                    }
                    assert forall|k: int| 0 <= k < p2.len() implies #[trigger] has_entry(u, p2[k].ip, p2[k].port) by {
                        if k < p.len() {
                            assert(p2[k] == p[k]);
                            assert(has_entry(u, p[k].ip, p[k].port));
                        } else {
                            assert(is_for(u[i as int], p2[k].ip, p2[k].port));
                        }
                    }
                }
            }
        }
        proof {
            done = done + 1;
        }
    }
    proof {
        assert(input.skip(done).len() == 0);
        assert(input.take(done) =~= input);
    }
    uniq
}

/// Whether no two entries of `u` are for the same target.
pub open spec fn one_per_target(u: Seq<ResultView>) -> bool {
    forall|i: int, j: int| 0 <= i < j < u.len() ==> !is_for(#[trigger] u[i], #[trigger] u[j].ip, u[j].port)
}

/// Whether the entries of `s` are in report order.
pub open spec fn in_report_order(s: Seq<ResultView>) -> bool {
    forall|i: int, j: int| 0 <= i < j < s.len() ==> order_key(#[trigger] s[i]) <= order_key(#[trigger] s[j])
}

/// The entries of `u` in report order; entries with equal positions keep
/// their order.
fn sort_results(u: Vec<ScanResult>) -> (s: Vec<ScanResult>)
    requires
        one_per_target(views(u@)),
    ensures
        s.len() == u.len(),
        one_per_target(views(s@)),
        in_report_order(views(s@)),
        forall|i: int| 0 <= i < s.len() ==> views(u@).contains(#[trigger] views(s@)[i]),
        forall|j: int| 0 <= j < u.len() ==> views(s@).contains(#[trigger] views(u@)[j]),
{
    let ghost uv = views(u@);
    let mut rest = u;
    let mut sorted: Vec<ScanResult> = Vec::new();
    let mut keys: Vec<u64> = Vec::new();
    let ghost mut done: int = 0;
    assert(uv.skip(0) =~= uv);
    while rest.len() > 0
        invariant
            0 <= done <= uv.len(),
            uv == views(u@),
            one_per_target(uv),
            views(rest@) == uv.skip(done),
            sorted.len() == done,
            keys@.len() == sorted@.len(),
            forall|i: int| 0 <= i < sorted.len() ==> keys@[i] == order_key(#[trigger] sorted@[i]@),
            forall|i: int, j: int| 0 <= i < j < keys@.len() ==> keys@[i] <= keys@[j],
            forall|i: int| 0 <= i < sorted.len() ==> uv.take(done).contains(#[trigger] views(sorted@)[i]),
            forall|j: int| 0 <= j < done ==> views(sorted@).contains(#[trigger] uv[j]),
            one_per_target(views(sorted@)),
        decreases rest.len(),
    {
        let ghost old_rest = rest@;
        let ghost old_sorted = views(sorted@);
        proof {
            assert(views(old_rest).len() == old_rest.len());
            assert(views(old_rest)[0] == old_rest[0]@);
            assert(uv.skip(done)[0] == uv[done]);
        }
        let r = rest.remove(0);
        let ghost x = r@;
        proof {
            assert(x == uv[done]);
            assert forall|j: int| 0 <= j < views(rest@).len() implies views(rest@)[j] == uv.skip(done + 1)[j] by {
                assert(views(rest@)[j] == rest@[j]@);
                assert(rest@[j] == old_rest[j + 1]);
                assert(views(old_rest)[j + 1] == old_rest[j + 1]@);
                assert(uv.skip(done)[j + 1] == uv.skip(done + 1)[j]);
            }
            assert(views(rest@) =~= uv.skip(done + 1));
        }
        let k = result_order_key(&r);
        let mut pos: usize = 0;
        while pos < keys.len() && keys[pos] <= k
            invariant
                pos <= keys.len(),
                forall|i: int| 0 <= i < pos ==> keys@[i] <= k,
            decreases keys.len() - pos,
        {
            pos = pos + 1;
        }
        let ghost old_keys = keys@;
        let ghost old_exec = sorted@;
        proof {
            assert forall|i: int| pos <= i < old_keys.len() implies old_keys[i] > k by {
                assert(old_keys[pos as int] > k);
            }
        }
        sorted.insert(pos, r);
        keys.insert(pos, k);
        proof {
            let ns = views(sorted@);
            let p = pos as int;
            old_keys.insert_ensures(p, k);
            old_exec.insert_ensures(p, r);
            assert(ns.len() == old_sorted.len() + 1);
            assert forall|i: int| 0 <= i < ns.len() implies #[trigger] ns[i] == (if i < p {
                old_sorted[i]
            } else if i == p {
                x
            } else {
                old_sorted[i - 1]
            }) && keys@[i] == (if i < p {
                old_keys[i]
            } else if i == p {
                k
            } else {
                old_keys[i - 1]
            }) by {
                assert(ns[i] == sorted@[i]@);
                if i < p {
                    assert(sorted@[i] == old_exec[i]);
                    assert(old_sorted[i] == old_exec[i]@);
                } else if i > p {
                    assert(sorted@[(i - 1) + 1] == old_exec[i - 1]);
                    assert(keys@[(i - 1) + 1] == old_keys[i - 1]);
                    assert(old_sorted[i - 1] == old_exec[i - 1]@);
                }
            }
            assert forall|i: int| 0 <= i < sorted.len() implies keys@[i] == order_key(#[trigger] sorted@[i]@) by {
                assert(ns[i] == sorted@[i]@);
                if i < p {
                    assert(old_sorted[i] == old_exec[i]@);
                } else if i > p {
                    assert(old_sorted[i - 1] == old_exec[i - 1]@);
                }
            }
            assert forall|i: int, j: int| 0 <= i < j < keys@.len() implies keys@[i] <= keys@[j] by {
                assert(ns[i] == ns[i]);
                assert(ns[j] == ns[j]);
            }
            assert forall|i: int| 0 <= i < sorted.len() implies uv.take(done + 1).contains(#[trigger] views(sorted@)[i]) by {
                assert(ns[i] == ns[i]);
                if i == p {
                    assert(uv.take(done + 1)[done] == x);
                } else {
                    let q = if i < p { i } else { i - 1 };
                    assert(uv.take(done).contains(old_sorted[q]));
                    let w = choose|w: int| 0 <= w < uv.take(done).len() && uv.take(done)[w] == old_sorted[q];
                    assert(uv.take(done + 1)[w] == old_sorted[q]);
                }
            }
            assert forall|j: int| 0 <= j < done + 1 implies views(sorted@).contains(#[trigger] uv[j]) by {
                if j == done {
                    assert(ns[p] == x);
                } else {
                    assert(old_sorted.contains(uv[j]));
                    let w = choose|w: int| 0 <= w < old_sorted.len() && old_sorted[w] == uv[j];
                    if w < p {
                        assert(ns[w] == uv[j]);
                    } else {
                        assert(ns[w + 1] == uv[j]);
                    }
                }
            }
            assert forall|i: int| 0 <= i < old_sorted.len() implies !is_for(#[trigger] old_sorted[i], x.ip, x.port) && !is_for(x, old_sorted[i].ip, old_sorted[i].port) by {
                assert(uv.take(done).contains(old_sorted[i]));
                let w = choose|w: int| 0 <= w < uv.take(done).len() && uv.take(done)[w] == old_sorted[i];
                assert(uv[w] == old_sorted[i]);
                assert(!is_for(uv[w], uv[done].ip, uv[done].port));
            }
            assert forall|i: int, j: int| 0 <= i < j < ns.len() implies !is_for(#[trigger] ns[i], #[trigger] ns[j].ip, ns[j].port) by {
                let a = if i < p { i } else { i - 1 };
                let b = if j < p { j } else { j - 1 };
                if i == p {
                    assert(ns[j] == old_sorted[b]);
                    assert(!is_for(x, old_sorted[b].ip, old_sorted[b].port));
                } else if j == p {
                    assert(ns[i] == old_sorted[a]);
                    assert(!is_for(old_sorted[a], x.ip, x.port));
                } else {
                    assert(ns[i] == old_sorted[a]);
                    assert(ns[j] == old_sorted[b]);
                    assert(a < b);
                    assert(!is_for(old_sorted[a], old_sorted[b].ip, old_sorted[b].port));
                }
            }
        }
        proof {
            done = done + 1;
        }
    }
    proof {
        assert(uv.skip(done).len() == 0);
        assert(uv.take(done) =~= uv);
    }
    sorted
}

/// Merges the findings of a scan into the report: one entry per target
/// (the first open finding for it if there is one, else its first
/// finding), ordered by address, then by port.
pub fn merge_results(results: Vec<ScanResult>) -> (out: Vec<ScanResult>)
    ensures
        merged_from(views(out@), views(results@)),
        in_report_order(views(out@)),
{
    let ghost input = views(results@);
    let u = dedup_results(results);
    let ghost uv = views(u@);
    let s = sort_results(u);
    proof {
        let sv = views(s@);
        assert forall|i: int| 0 <= i < sv.len() implies (#[trigger] kept_index(input, sv[i].ip, sv[i].port) matches Some(k) && 0 <= k < input.len() && sv[i] == input[k]) by {
            assert(uv.contains(sv[i]));
            let w = choose|w: int| 0 <= w < uv.len() && uv[w] == sv[i];
            assert(kept_index(input, uv[w].ip, uv[w].port) matches Some(k) && 0 <= k < input.len() && uv[w] == input[k]);
        }
        assert forall|k: int| 0 <= k < input.len() implies #[trigger] has_entry(sv, input[k].ip, input[k].port) by {
            assert(has_entry(uv, input[k].ip, input[k].port));
            let w = choose|w: int| 0 <= w < uv.len() && #[trigger] is_for(uv[w], input[k].ip, input[k].port);
            assert(sv.contains(uv[w]));
            let i = choose|i: int| 0 <= i < sv.len() && sv[i] == uv[w];
            assert(is_for(sv[i], input[k].ip, input[k].port));
        }
    }
    s
}

/// A finding with what banner grabbing found: the banner and version
/// set, the operating system replaced when the banner named one.
pub open spec fn with_banner(
    r: ResultView,
    banner: Seq<char>,
    version: Seq<char>,
    os: Option<Seq<char>>,
) -> ResultView {
    ResultView {
        banner: Some(banner),
        version: Some(version),
        os_guess: if os is Some {
            os
        } else {
            r.os_guess
        },
        ..r
    }
}

/// Records what banner grabbing found for `ip`:`port` on the first
/// finding for that target; nothing changes if there is none.
pub fn apply_banner(
    results: &mut Vec<ScanResult>,
    ip: &str,
    port: u16,
    banner: String,
    version: String,
    os: Option<String>,
)
    ensures
        (match first_for(views(old(results)@), ip@, port, false) {
            Some(k) => views(final(results)@) == views(old(results)@).update(
                k,
                with_banner(views(old(results)@)[k], banner@, version@, os.deep_view()),
            ),
            None => final(results)@ == old(results)@,
        }),
{
    let ghost rs = views(results@);
    let target = String::from_str(ip);
    let mut i: usize = 0;
    while i < results.len() && !(results[i].ip == target && results[i].port == port)
        invariant
            i <= results.len(),
            rs == views(results@),
            target@ == ip@,
            forall|j: int| 0 <= j < i ==> !counts_for(#[trigger] rs[j], ip@, port, false),
        decreases results.len() - i,
    {
        i = i + 1;
    }
    proof {
        lemma_first_for(rs, ip@, port, false);
        if i < results.len() {
            assert(counts_for(rs[i as int], ip@, port, false));
            if let Some(k) = first_for(rs, ip@, port, false) {
                if k < i {
                    assert(!counts_for(rs[k], ip@, port, false));
                }
            }
            assert(first_for(rs, ip@, port, false) == Some(i as int));
        } else {
            if let Some(k) = first_for(rs, ip@, port, false) {
                assert(!counts_for(rs[k], ip@, port, false));
            }
        }
    }
    if i < results.len() {
        let ghost before = results@;
        let mut r = results.remove(i);
        r.banner = Some(banner);
        r.version = Some(version);
        if os.is_some() {
            r.os_guess = os;
        }
        results.insert(i, r);
        proof {
            before.remove_ensures(i as int);
            before.remove(i as int).insert_ensures(i as int, r);
            assert(views(results@) =~= rs.update(
                i as int,
                with_banner(rs[i as int], banner@, version@, os.deep_view()),
            )) by {
                assert forall|j: int| 0 <= j < results@.len() implies views(results@)[j] == rs.update(
                    i as int,
                    with_banner(rs[i as int], banner@, version@, os.deep_view()),
                )[j] by {
                    if j < i {
                        assert(results@[j] == before[j]);
                    } else if j > i {
                        assert(results@[(j - 1) + 1] == before.remove(i as int)[j - 1]);
                        assert(before.remove(i as int)[j - 1] == before[j]);
                    }
                }
            }
        }
    }
}

/// The targets of the open findings, in order.
pub open spec fn open_targets_of(rs: Seq<ResultView>) -> Seq<(Seq<char>, u16)>
    decreases rs.len(),
{
    if rs.len() == 0 {
        Seq::empty()
    } else {
        let p = open_targets_of(rs.drop_last());
        if rs.last().status == PortStatus::Open {
            p.push((rs.last().ip, rs.last().port))
        } else {
            p
        }
    }
}

/// The address and port of each open finding, in order.
pub fn open_targets(results: &Vec<ScanResult>) -> (r: Vec<(String, u16)>)
    ensures
        r@.map_values(|t: (String, u16)| (t.0@, t.1)) == open_targets_of(views(results@)),
{
    let ghost rs = views(results@);
    let mut out: Vec<(String, u16)> = Vec::new();
    let mut i: usize = 0;
    while i < results.len()
        invariant
            i <= results.len(),
            rs == views(results@),
            out@.map_values(|t: (String, u16)| (t.0@, t.1)) == open_targets_of(rs.take(i as int)),
        decreases results.len() - i,
    {
        proof {
            assert(rs.take(i + 1).drop_last() =~= rs.take(i as int));
            assert(rs.take(i + 1).last() == results@[i as int]@);
        }
        if results[i].status == PortStatus::Open {
            let ip = results[i].ip.clone();
            out.push((ip, results[i].port));
            proof {
                assert(out@.map_values(|t: (String, u16)| (t.0@, t.1)) =~= open_targets_of(rs.take(i + 1)));
            }
        }
        i = i + 1;
    }
    assert(rs.take(i as int) =~= rs);
    out
}

/// How many findings have state `status`.
pub open spec fn count_with(rs: Seq<ResultView>, status: PortStatus) -> nat
    decreases rs.len(),
{
    if rs.len() == 0 {
        0
    } else {
        count_with(rs.drop_last(), status) + if rs.last().status == status {
            1nat
        } else {
            0nat
        }
    }
}

proof fn lemma_count_with_bound(rs: Seq<ResultView>, status: PortStatus)
    ensures
        count_with(rs, status) <= rs.len(),
    decreases rs.len(),
{
    if rs.len() > 0 {
        lemma_count_with_bound(rs.drop_last(), status);
    }
}

/// How many findings have state `status`.
pub fn count_status(results: &Vec<ScanResult>, status: PortStatus) -> (n: usize)
    ensures
        n == count_with(views(results@), status),
{
    let ghost rs = views(results@);
    let mut n: usize = 0;
    let mut i: usize = 0;
    while i < results.len()
        invariant
            i <= results.len(),
            rs == views(results@),
            n == count_with(rs.take(i as int), status),
        decreases results.len() - i,
    {
        proof {
            assert(rs.take(i + 1).drop_last() =~= rs.take(i as int));
            assert(rs.take(i + 1).last() == results@[i as int]@);
            lemma_count_with_bound(rs.take(i as int), status);
        }
        if results[i].status == status {
            n = n + 1;
        }
        i = i + 1;
    }
    assert(rs.take(i as int) =~= rs);
    n
}

} // verus!
