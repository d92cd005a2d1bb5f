//! A randomised scan and a sequential scan of the same range probe the
//! same pairs of address and port, as many times each.

use vstd::prelude::*;
use vstd::seq_lib::{lemma_multiset_commutative, to_multiset_build};
use crate::group::{group_size, lemma_walk_cycle, walk_reaches};
use crate::permutation::{
    fresh_walk, lemma_distinct_steps, lemma_walk_facts, perm_next, perm_start, perm_step,
    steps_left, walk, PermState,
};
use crate::scan::{
    lemma_perm_next_progress, lemma_ports_phase, lemma_probe_split, lemma_sweep_no_ports,
    order_next, plan_next, probe_outputs, random_plan, sweep, target_probes, OrderView, PlanView,
};

verus! {

/// The probes of the targets `ts`, target by target, each on every port
/// in order.
pub open spec fn probes_of(ts: Seq<u32>, ports: Seq<u16>) -> Seq<(u32, u16)>
    decreases ts.len(),
{
    if ts.len() == 0 {
        Seq::empty()
    } else {
        target_probes(ts[0], ports) + probes_of(ts.drop_first(), ports)
    }
}

/// The addresses from `lo` to `hi`, in increasing order.
pub open spec fn addrs(lo: int, hi: int) -> Seq<u32>
    decreases hi - lo + 1,
{
    if lo > hi || lo < 0 {
        Seq::empty()
    } else {
        seq![lo as u32] + addrs(lo + 1, hi)
    }
}

/// The sweep of a range is the probes of its addresses in order.
proof fn lemma_sweep_is_probes_of_addrs(lo: int, hi: int, ports: Seq<u16>)
    ensures
        sweep(lo, hi, ports) == probes_of(addrs(lo, hi), ports),
    decreases hi - lo + 1,
{
    if !(lo > hi || lo < 0) {
        lemma_sweep_is_probes_of_addrs(lo + 1, hi, ports);
        let a = addrs(lo, hi);
        assert(a.drop_first() =~= addrs(lo + 1, hi));
        assert(a[0] == lo as u32);
    }
}

/// The addresses from `lo` to `hi` are `lo`, `lo + 1`, ..., `hi`.
proof fn lemma_addrs_values(lo: int, hi: int)
    requires
        0 <= lo,
        hi <= u32::MAX,
    ensures
        addrs(lo, hi).len() == if lo > hi { 0 } else { hi - lo + 1 },
        forall|i: int| 0 <= i < addrs(lo, hi).len() ==> #[trigger] addrs(lo, hi)[i] == lo + i,
    decreases hi - lo + 1,
{
    if lo <= hi {
        lemma_addrs_values(lo + 1, hi);
        let a = addrs(lo, hi);
        let b = addrs(lo + 1, hi);
        assert forall|i: int| 0 <= i < a.len() implies #[trigger] a[i] == lo + i by {
            if i > 0 {
                assert(a[i] == b[i - 1]);
            }
        }
    }
}

/// As many probes as targets times ports.
proof fn lemma_probes_of_len(ts: Seq<u32>, ports: Seq<u16>)
    ensures
        probes_of(ts, ports).len() == ts.len() * ports.len(),
    decreases ts.len(),
{
    if ts.len() > 0 {
        lemma_probes_of_len(ts.drop_first(), ports);
        assert(ts.len() * ports.len() == ports.len() + (ts.len() - 1) * ports.len())
            by (nonlinear_arith)
            requires
                ts.len() >= 1,
        ;
    }
}

/// How often a value occurs in a sequence of one element.
proof fn lemma_single_count<A>(x: A, a: A)
    ensures
        seq![x].to_multiset().count(a) == if x == a { 1nat } else { 0nat },
{
    broadcast use vstd::multiset::group_multiset_axioms;
    to_multiset_build(Seq::<A>::empty(), x);
    assert(Seq::<A>::empty().push(x) =~= seq![x]);
    vstd::seq_lib::to_multiset_len(Seq::<A>::empty());
    assert(Seq::<A>::empty().to_multiset() =~= vstd::multiset::Multiset::<A>::empty()) by {
        assert forall|y: A| Seq::<A>::empty().to_multiset().count(y) == 0 by {
            Seq::<A>::empty().to_multiset_ensures();
        }
    }
}

/// How often a pair occurs among the probes of one target.
proof fn lemma_target_probes_count(x: u32, ports: Seq<u16>, a: u32, p: u16)
    ensures
        target_probes(x, ports).to_multiset().count((a, p)) == if x == a {
            ports.to_multiset().count(p)
        } else {
            0
        },
    decreases ports.len(),
{
    broadcast use vstd::multiset::group_multiset_axioms;
    if ports.len() == 0 {
        assert(target_probes(x, ports) =~= Seq::<(u32, u16)>::empty());
        Seq::<(u32, u16)>::empty().to_multiset_ensures();
        ports.to_multiset_ensures();
    } else {
        let front = ports.drop_last();
        let q = ports.last();
        lemma_target_probes_count(x, front, a, p);
        assert(ports =~= front.push(q));
        assert(target_probes(x, ports) =~= target_probes(x, front).push((x, q)));
        to_multiset_build(target_probes(x, front), (x, q));
        to_multiset_build(front, q);
    }
}

/// How often a pair occurs among the probes of targets `ts`: as often as
/// the address among the targets times the port among the ports.
proof fn lemma_probes_of_count(ts: Seq<u32>, ports: Seq<u16>, a: u32, p: u16)
    ensures
        probes_of(ts, ports).to_multiset().count((a, p)) == ts.to_multiset().count(a)
            * ports.to_multiset().count(p),
    decreases ts.len(),
{
    broadcast use vstd::multiset::group_multiset_axioms;
    if ts.len() == 0 {
        assert(probes_of(ts, ports) =~= Seq::<(u32, u16)>::empty());
        Seq::<(u32, u16)>::empty().to_multiset_ensures();
        ts.to_multiset_ensures();
        assert(!Seq::<(u32, u16)>::empty().contains((a, p)));
        assert(!ts.contains(a));
        assert(ts.to_multiset().count(a) == 0);
        assert(0 * ports.to_multiset().count(p) == 0);
    } else {
        let x = ts[0];
        let rest = ts.drop_first();
        lemma_probes_of_count(rest, ports, a, p);
        lemma_target_probes_count(x, ports, a, p);
        let tp = target_probes(x, ports);
        let pr = probes_of(rest, ports);
        assert(probes_of(ts, ports) == tp + pr);
        lemma_multiset_commutative(tp, pr);
        let cp = ports.to_multiset().count(p);
        let cr = rest.to_multiset().count(a);
        assert(probes_of(ts, ports).to_multiset().count((a, p)) == tp.to_multiset().count((a, p))
            + pr.to_multiset().count((a, p)));
        assert(pr.to_multiset().count((a, p)) == cr * cp);
        assert(ts == seq![x] + rest);
        lemma_multiset_commutative(seq![x], rest);
        lemma_single_count(x, a);
        assert(ts.to_multiset().count(a) == seq![x].to_multiset().count(a) + cr);
        if x == a {
            assert((1 + cr) * cp == cp + cr * cp) by (nonlinear_arith);
        } else {
            assert(tp.to_multiset().count((a, p)) == 0);
        }
    }
}

/// Two lists of targets that hold the same addresses, as often each, give
/// probes that hold the same pairs, as often each.
pub proof fn lemma_probes_of_permuted(ts: Seq<u32>, us: Seq<u32>, ports: Seq<u16>)
    requires
        ts.to_multiset() == us.to_multiset(),
    ensures
        probes_of(ts, ports).to_multiset() == probes_of(us, ports).to_multiset(),
{
    assert forall|x: (u32, u16)| probes_of(ts, ports).to_multiset().count(x) == probes_of(
        us,
        ports,
    ).to_multiset().count(x) by {
        lemma_probes_of_count(ts, ports, x.0, x.1);
        lemma_probes_of_count(us, ports, x.0, x.1);
    }
    assert(probes_of(ts, ports).to_multiset() =~= probes_of(us, ports).to_multiset());
}

/// Two lists without repeats that hold the same values hold them as often
/// each.
proof fn lemma_same_values_same_multiset(ts: Seq<u32>, us: Seq<u32>)
    requires
        ts.no_duplicates(),
        us.no_duplicates(),
        forall|x: u32| ts.contains(x) <==> us.contains(x),
    ensures
        ts.to_multiset() == us.to_multiset(),
{
    ts.lemma_multiset_has_no_duplicates();
    us.lemma_multiset_has_no_duplicates();
    ts.to_multiset_ensures();
    us.to_multiset_ensures();
    assert forall|x: u32| ts.to_multiset().count(x) == us.to_multiset().count(x) by {
        if ts.contains(x) {
            assert(ts.to_multiset().count(x) == 1);
            assert(us.to_multiset().count(x) == 1);
        } else {
            assert(ts.to_multiset().count(x) == 0);
            assert(us.to_multiset().count(x) == 0);
        }
    }
    assert(ts.to_multiset() =~= us.to_multiset());
}

/// The targets that a randomised order finds after step `k` of the walk
/// from `g0`: the values of the later steps up to its return to the start
/// that lie in `lo..=hi`, in the order of the walk.
pub open spec fn walk_targets(g0: PermState, k: nat, lo: u32, hi: u32) -> Seq<u32>
    decreases group_size() - k,
{
    if k >= group_size() {
        Seq::empty()
    } else {
        let v = walk(g0, k + 1).current;
        if lo <= v <= hi {
            seq![v as u32] + walk_targets(g0, k + 1, lo, hi)
        } else {
            walk_targets(g0, k + 1, lo, hi)
        }
    }
}

/// From step `k` of a walk that has not come back to its start, the
/// randomised order's next target is the first of `walk_targets`, reached
/// at a later step `m2` whose targets are the rest; when there is none the
/// order ends.
proof fn lemma_order_targets(g0: PermState, k: nat, lo: u32, hi: u32) -> (m2: nat)
    requires
        fresh_walk(g0),
        1 <= lo,
        k <= group_size(),
    ensures
        walk_targets(g0, k, lo, hi).len() == 0 ==> order_next(
            OrderView::Random { gen: walk(g0, k), finished: false },
            lo,
            hi,
        ).1 is None,
        walk_targets(g0, k, lo, hi).len() > 0 ==> {
            &&& k < m2 <= group_size()
            &&& order_next(OrderView::Random { gen: walk(g0, k), finished: false }, lo, hi) == (
            OrderView::Random { gen: walk(g0, m2), finished: false },
            Some(walk_targets(g0, k, lo, hi)[0]))
            &&& walk_targets(g0, m2, lo, hi) == walk_targets(g0, k, lo, hi).drop_first()
        },
    decreases group_size() - k,
{
    lemma_walk_cycle(g0);
    lemma_walk_facts(g0, k);
    let n = group_size();
    let o = OrderView::Random { gen: walk(g0, k), finished: false };
    if k == n {
        assert(perm_next(walk(g0, k)).1 is None);
        k
    } else {
        lemma_walk_facts(g0, k + 1);
        let g = walk(g0, k);
        let g1 = walk(g0, k + 1);
        assert(perm_step(g) == g1);
        if k > 0 {
            assert(g.current != g0.start);
        }
        let v = g1.current;
        let ts = walk_targets(g0, k, lo, hi);
        let o1 = OrderView::Random { gen: g1, finished: false };
        if lo <= v <= hi {
            assert(perm_next(g) == (g1, Some(v as u32)));
            assert(ts == seq![v as u32] + walk_targets(g0, k + 1, lo, hi));
            assert(ts.drop_first() =~= walk_targets(g0, k + 1, lo, hi));
            k + 1
        } else if 1 <= v <= 0xffff_ffff {
            assert(perm_next(g) == (g1, Some(v as u32)));
            assert(steps_left(g1) < steps_left(g));
            assert(order_next(o, lo, hi) == order_next(o1, lo, hi));
            lemma_order_targets(g0, k + 1, lo, hi)
        } else {
            assert(perm_next(g) == perm_next(g1));
            lemma_perm_next_progress(g1);
            let (g2, r) = perm_next(g1);
            if let Some(a) = r {
                assert(steps_left(g2) < steps_left(g1));
                assert(steps_left(g1) < steps_left(g));
            }
            assert(order_next(o, lo, hi) == order_next(o1, lo, hi));
            lemma_order_targets(g0, k + 1, lo, hi)
        }
    }
}

/// From a plan between targets whose randomised order stands at step `k`
/// of a walk that has not come back to its start, the calls yield the
/// probes of the remaining walk targets and then the end.
proof fn lemma_random_phase(g0: PermState, q: PlanView, k: nat)
    requires
        fresh_walk(g0),
        1 <= q.lo,
        q.ports.len() > 0,
        k <= group_size(),
        q.order == (OrderView::Random { gen: walk(g0, k), finished: false }),
        q.current is None || q.port_idx >= q.ports.len(),
    ensures
        probe_outputs(q, probes_of(walk_targets(g0, k, q.lo, q.hi), q.ports).len() + 1)
            == probes_of(walk_targets(g0, k, q.lo, q.hi), q.ports).map_values(
            |x: (u32, u16)| Some(x),
        ).push(None),
    decreases group_size() - k,
{
    let ports = q.ports;
    let m = ports.len();
    let ts = walk_targets(g0, k, q.lo, q.hi);
    let all = probes_of(ts, ports);
    let m2 = lemma_order_targets(g0, k, q.lo, q.hi);
    if ts.len() == 0 {
        assert(all =~= Seq::<(u32, u16)>::empty());
        assert(plan_next(q).1 is None);
        assert(probe_outputs(plan_next(q).0, 0) =~= Seq::<Option<(u32, u16)>>::empty());
        assert(probe_outputs(q, 1) =~= seq![None::<(u32, u16)>]);
        assert(all.map_values(|x: (u32, u16)| Some(x)).push(None) =~= seq![None::<(u32, u16)>]);
    } else {
        let ip = ts[0];
        let t = PlanView {
            order: OrderView::Random { gen: walk(g0, m2), finished: false },
            current: Some(ip),
            port_idx: 1,
            ..q
        };
        assert(plan_next(q) == (t, Some((ip, ports[0]))));
        let rest = probes_of(walk_targets(g0, m2, q.lo, q.hi), ports);
        let here = target_probes(ip, ports);
        assert(all == here + rest);
        let n = all.len() + 1;
        assert(n == m + rest.len() + 1);
        lemma_ports_phase(t, ip);
        let t2 = PlanView { port_idx: m, ..t };
        lemma_random_phase(g0, t2, m2);
        lemma_probe_split(t, (m - 1) as nat, rest.len() + 1);
        assert(((n - 1) as nat) == (m - 1) as nat + (rest.len() + 1));
        let first = seq![Some((ip, ports[0]))];
        let mid = ports.skip(1).map_values(|port: u16| Some((ip, port)));
        let tail = rest.map_values(|x: (u32, u16)| Some(x)).push(None);
        assert(probe_outputs(q, n) == first + probe_outputs(t, (n - 1) as nat));
        assert(probe_outputs(t, (n - 1) as nat) == mid + tail);
        assert(first + (mid + tail) =~= all.map_values(|x: (u32, u16)| Some(x)).push(None));
    }
}

/// Whether the walk from `g0` takes the value `x` at a step after `k`,
/// up to its return to the start.
pub open spec fn reached_after(g0: PermState, k: nat, x: int) -> bool {
    exists|j: nat| k < j <= group_size() && #[trigger] walk(g0, j).current == x
}

/// The walk targets after step `k` are values of later steps in the range,
/// none twice, and every value in the range that a later step takes is
/// among them.
proof fn lemma_walk_targets_facts(g0: PermState, k: nat, lo: u32, hi: u32)
    requires
        fresh_walk(g0),
        k <= group_size(),
    ensures
        forall|i: int|
            0 <= i < walk_targets(g0, k, lo, hi).len() ==> lo <= #[trigger] walk_targets(
                g0,
                k,
                lo,
                hi,
            )[i] <= hi && reached_after(g0, k, walk_targets(g0, k, lo, hi)[i] as int),
        walk_targets(g0, k, lo, hi).no_duplicates(),
        forall|j: nat|
            k < j <= group_size() && lo <= #[trigger] walk(g0, j).current <= hi
                ==> walk_targets(g0, k, lo, hi).contains(walk(g0, j).current as u32),
    decreases group_size() - k,
{
    let n = group_size();
    let ts = walk_targets(g0, k, lo, hi);
    if k < n {
        lemma_walk_cycle(g0);
        lemma_walk_targets_facts(g0, k + 1, lo, hi);
        let rest = walk_targets(g0, k + 1, lo, hi);
        let v = walk(g0, k + 1).current;
        assert forall|i: int| 0 <= i < rest.len() implies reached_after(g0, k, rest[i] as int) by {
            let j = choose|j: nat| k + 1 < j <= n && #[trigger] walk(g0, j).current == rest[i] as int;
            assert(walk(g0, j).current == rest[i] as int);
        }
        if lo <= v <= hi {
            assert(ts == seq![v as u32] + rest);
            assert forall|i: int| 0 <= i < rest.len() implies rest[i] != v as u32 by {
                let j = choose|j: nat| k + 1 < j <= n && #[trigger] walk(g0, j).current == rest[i] as int;
                assert forall|m: nat| 1 <= m < j implies #[trigger] walk(g0, m).current != g0.start by {
                    assert(m < n);
                }
                lemma_distinct_steps(g0, k + 1, j);
            }
            assert forall|i: int| 0 <= i < ts.len() implies lo <= #[trigger] ts[i] <= hi && reached_after(
                g0,
                k,
                ts[i] as int,
            ) by {
                if i == 0 {
                    assert(walk(g0, k + 1).current == ts[0] as int);
                } else {
                    assert(ts[i] == rest[i - 1]);
                }
            }
            assert forall|a: int, b: int| 0 <= a < ts.len() && 0 <= b < ts.len() && a != b implies ts[a]
                != ts[b] by {
                if a == 0 {
                    assert(ts[b] == rest[b - 1]);
                } else if b == 0 {
                    assert(ts[a] == rest[a - 1]);
                } else {
                    assert(ts[a] == rest[a - 1] && ts[b] == rest[b - 1]);
                }
            }
            assert forall|j: nat| k < j <= n && lo <= #[trigger] walk(g0, j).current <= hi implies ts.contains(
                walk(g0, j).current as u32,
            ) by {
                if j == k + 1 {
                    assert(ts[0] == walk(g0, j).current as u32);
                } else {
                    let i = choose|i: int| 0 <= i < rest.len() && rest[i] == walk(g0, j).current as u32;
                    assert(ts[i + 1] == rest[i]);
                }
            }
        } else {
            assert(ts == rest);
        }
    }
}

/// A randomised scan probes the same pairs of address and port as a
/// sequential scan of the same range, each as often, and as many in all:
/// for a range of nonzero addresses, before the plan first reports its end
/// it yields `(hi - lo + 1) * ports.len()` probes, whose multiset is that
/// of the sweep that a sequential scan yields before its end (see
/// `lemma_sequential_scan_covers_range`). The walk never yields address 0,
/// so a range that holds it is left out.
pub proof fn lemma_random_scan_matches_sequential(lo: u32, hi: u32, ports: Seq<u16>, seed: u64) -> (r:
    Seq<(u32, u16)>)
    requires
        1 <= lo <= hi,
    ensures
        r.len() == (hi - lo + 1) * ports.len(),
        r.len() == sweep(lo as int, hi as int, ports).len(),
        probe_outputs(random_plan(lo, hi, ports, seed), r.len() + 1) == r.map_values(
            |x: (u32, u16)| Some(x),
        ).push(None),
        r.to_multiset() == sweep(lo as int, hi as int, ports).to_multiset(),
{
    let p0 = random_plan(lo, hi, ports, seed);
    let sw = sweep(lo as int, hi as int, ports);
    if ports.len() == 0 {
        lemma_sweep_no_ports(lo as int, hi as int, ports);
        assert(sw =~= Seq::<(u32, u16)>::empty());
        assert(plan_next(p0) == (p0, None::<(u32, u16)>));
        assert(probe_outputs(p0, 0) =~= Seq::<Option<(u32, u16)>>::empty());
        assert(probe_outputs(p0, 1) =~= seq![None::<(u32, u16)>]);
        let r = Seq::<(u32, u16)>::empty();
        assert(r.map_values(|x: (u32, u16)| Some(x)).push(None) =~= seq![None::<(u32, u16)>]);
        r
    } else {
        let g0 = perm_start(seed);
        assert(fresh_walk(g0));
        assert(walk(g0, 0) == g0);
        let ts = walk_targets(g0, 0, lo, hi);
        let r = probes_of(ts, ports);
        lemma_random_phase(g0, p0, 0);
        lemma_walk_cycle(g0);
        lemma_walk_targets_facts(g0, 0, lo, hi);
        let a = addrs(lo as int, hi as int);
        lemma_addrs_values(lo as int, hi as int);
        assert(a.no_duplicates()) by {
            assert forall|i: int, j: int| 0 <= i < a.len() && 0 <= j < a.len() && i != j implies a[i]
                != a[j] by {
                assert(a[i] == lo + i && a[j] == lo + j);
            }
        }
        assert forall|x: u32| ts.contains(x) <==> a.contains(x) by {
            if ts.contains(x) {
                let i = choose|i: int| 0 <= i < ts.len() && ts[i] == x;
                assert(lo <= ts[i] <= hi);
                assert(a[x - lo] == x);
            }
            if a.contains(x) {
                let i = choose|i: int| 0 <= i < a.len() && a[i] == x;
                assert(a[i] == lo + i);
                assert(walk_reaches(g0, x as int));
                let j = choose|j: nat| 1 <= j <= group_size() && #[trigger] walk(g0, j).current == x as int;
                assert(lo <= walk(g0, j).current <= hi);
            }
        }
        lemma_same_values_same_multiset(ts, a);
        lemma_probes_of_permuted(ts, a, ports);
        lemma_sweep_is_probes_of_addrs(lo as int, hi as int, ports);
        ts.to_multiset_ensures();
        a.to_multiset_ensures();
        lemma_probes_of_len(ts, ports);
        lemma_probes_of_len(a, ports);
        r
    }
}

} // verus!
