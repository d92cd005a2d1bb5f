//! The transmit side's decisions: which address and port to probe next,
//! and the probe frame for it.

use vstd::prelude::*;
use crate::packet::{
    cookie, encode_seq, ip_header, tcp_header, PacketTemplate, EPHEMERAL_HIGH, EPHEMERAL_LOW,
};
use crate::group::{group_size, lemma_walk_cycle, walk_reaches};
use crate::permutation::{
    fresh_walk, lemma_next_walk, perm_next, perm_start, steps_left, walk, PermState,
    PermutationGen, PRIME_32,
};
use crate::random::{random_in_range, random_u64};

verus! {

/// A step of `perm_next` that yields an address moves the walk on; the
/// walk keeps its modulus, and a yielded address comes before the walk
/// gives up.
pub proof fn lemma_perm_next_progress(g: PermState)
    requires
        g.count < u64::MAX,
        g.prime == PRIME_32,
    ensures
        perm_next(g).1 is Some ==> perm_next(g).0.count > g.count,
        perm_next(g).0.prime == g.prime,
        perm_next(g).0.count >= g.count,
        perm_next(g).1 is Some ==> perm_next(g).0.count <= g.prime,
        perm_next(g).1 matches Some(a) ==> 1 <= a,
    decreases steps_left(g),
{
    if !(g.count > 0 && g.current == g.start) {
        let g1 = crate::permutation::perm_step(g);
        if g1.count <= g1.prime && (g1.current == 0 || g1.current > 0xffff_ffff) && g.count
            < g.prime {
            lemma_perm_next_progress(g1);
        }
    }
}

/// The order in which the targets are visited.
pub enum TargetOrder {
    /// The walk of a permutation generator; `finished` once it gave up.
    Random { gen: PermutationGen, finished: bool },
    /// Upwards from `next`; `finished` once past the last address.
    Sequential { next: u32, finished: bool },
}

/// The plain content of a `TargetOrder`.
pub enum OrderView {
    Random { gen: PermState, finished: bool },
    Sequential { next: u32, finished: bool },
}

impl View for TargetOrder {
    type V = OrderView;

    open spec fn view(&self) -> OrderView {
        match self {
            TargetOrder::Random { gen, finished } => OrderView::Random { gen: gen@, finished: *finished },
            TargetOrder::Sequential { next, finished } => OrderView::Sequential {
                next: *next,
                finished: *finished,
            },
        }
    }
}

/// Measure of the work left in an order.
pub open spec fn order_left(o: OrderView) -> nat {
    match o {
        OrderView::Random { gen, finished } => if finished {
            0
        } else {
            steps_left(gen)
        },
        OrderView::Sequential { .. } => 0,
    }
}

/// The next target of order `o` within `lo..=hi`: the walk yields
/// addresses and those outside the range are passed over; the sequential
/// order counts up to `hi` and ends after it (also when `hi` is
/// 255.255.255.255).
pub open spec fn order_next(o: OrderView, lo: u32, hi: u32) -> (OrderView, Option<u32>)
    decreases order_left(o),
{
    match o {
        OrderView::Random { gen, finished } => if finished {
            (OrderView::Random { gen, finished: true }, None)
        } else {
            let (g1, r) = perm_next(gen);
            match r {
                None => (OrderView::Random { gen: g1, finished: true }, None),
                Some(a) => if a < lo || a > hi {
                    if steps_left(g1) < steps_left(gen) {
                        order_next(OrderView::Random { gen: g1, finished: false }, lo, hi)
                    } else {
                        (OrderView::Random { gen: g1, finished: true }, None)
                    }
                } else {
                    (OrderView::Random { gen: g1, finished: false }, Some(a))
                },
            }
        },
        OrderView::Sequential { next, finished } => if finished || next > hi {
            (OrderView::Sequential { next, finished: true }, None)
        } else {
            let n1: u32 = if next == u32::MAX { next } else { (next + 1) as u32 };
            (OrderView::Sequential { next: n1, finished: next == u32::MAX }, Some(next))
        },
    }
}

/// A walk that has not given up has taken at most `PRIME_32` steps.
pub open spec fn order_ok(o: OrderView) -> bool {
    match o {
        OrderView::Random { gen, finished } => gen.prime == PRIME_32 && (finished || gen.count
            <= PRIME_32),
        OrderView::Sequential { .. } => true,
    }
}

/// A sequential order that is not finished is at or above `lo`.
pub open spec fn order_from(o: OrderView, lo: u32) -> bool {
    match o {
        OrderView::Random { .. } => true,
        OrderView::Sequential { next, finished } => finished || lo <= next,
    }
}

/// A scan: the target range, the ports, the target order and the
/// position in the port list of the current target.
pub struct ScanPlan {
    lo: u32,
    hi: u32,
    ports: Vec<u16>,
    order: TargetOrder,
    current: Option<u32>,
    port_idx: usize,
}

/// The plain content of a `ScanPlan`.
pub struct PlanView {
    pub lo: u32,
    pub hi: u32,
    pub ports: Seq<u16>,
    pub order: OrderView,
    pub current: Option<u32>,
    pub port_idx: nat,
}

impl View for ScanPlan {
    type V = PlanView;

    closed spec fn view(&self) -> PlanView {
        PlanView {
            lo: self.lo,
            hi: self.hi,
            ports: self.ports@,
            order: self.order@,
            current: self.current,
            port_idx: self.port_idx as nat,
        }
    }
}

/// What `next_probe` does from plan `p`: nothing on an empty port list;
/// otherwise the next port of the current target, or else the first port
/// of the next target.
pub open spec fn plan_next(p: PlanView) -> (PlanView, Option<(u32, u16)>) {
    if p.ports.len() == 0 {
        (p, None)
    } else {
    match p.current {
        Some(ip) if p.port_idx < p.ports.len() => (
            PlanView { port_idx: p.port_idx + 1, ..p },
            Some((ip, p.ports[p.port_idx as int])),
        ),
        _ => {
            let (o1, t) = order_next(p.order, p.lo, p.hi);
            match t {
                None => (PlanView { order: o1, current: None, port_idx: 0, ..p }, None),
                Some(ip) => (
                    PlanView { order: o1, current: Some(ip), port_idx: 1, ..p },
                    Some((ip, p.ports[0])),
                ),
            }
        },
    }
    }
}

impl TargetOrder {
    /// The next target within `lo..=hi`, and the order after it.
    fn advance(self, lo: u32, hi: u32) -> (r: (TargetOrder, Option<u32>))
        requires
            order_ok(self@),
            order_from(self@, lo),
        ensures
            (r.0@, r.1) == order_next(self@, lo, hi),
            order_ok(r.0@),
            order_from(r.0@, lo),
    {
        match self {
            TargetOrder::Random { gen, finished } => {
                let mut gen = gen;
                let mut finished = finished;
                let ghost start = self@;
                loop
                    invariant
                        order_next(OrderView::Random { gen: gen@, finished }, lo, hi) == order_next(
                            start,
                            lo,
                            hi,
                        ),
                        order_ok(OrderView::Random { gen: gen@, finished }),
                        start == self@,
                    decreases order_left(OrderView::Random { gen: gen@, finished }),
                {
                    if finished {
                        return (TargetOrder::Random { gen, finished: true }, None);
                    }
                    let ghost g0 = gen@;
                    proof {
                        lemma_perm_next_progress(g0);
                    }
                    let r = gen.next();
                    match r {
                        None => {
                            return (TargetOrder::Random { gen, finished: true }, None);
                        },
                        Some(a) => {
                            if a < lo || a > hi {
                                assert(steps_left(gen@) < steps_left(g0));
                                finished = false;
                                continue;
                            }
                            return (TargetOrder::Random { gen, finished: false }, Some(a));
                        },
                    }
                }
            },
            TargetOrder::Sequential { next, finished } => {
                if finished || next > hi {
                    return (TargetOrder::Sequential { next, finished: true }, None);
                }
                let n1 = next.saturating_add(1);
                (TargetOrder::Sequential { next: n1, finished: next == u32::MAX }, Some(next))
            },
        }
    }
}

/// Every target of an order lies in the range.
pub proof fn lemma_order_next_in_range(o: OrderView, lo: u32, hi: u32)
    requires
        order_from(o, lo),
    ensures
        order_next(o, lo, hi).1 is Some ==> lo <= order_next(o, lo, hi).1.unwrap() <= hi,
    decreases order_left(o),
{
    match o {
        OrderView::Random { gen, finished } => {
            if !finished {
                let (g1, r) = perm_next(gen);
                if let Some(a) = r {
                    if (a < lo || a > hi) && steps_left(g1) < steps_left(gen) {
                        lemma_order_next_in_range(
                            OrderView::Random { gen: g1, finished: false },
                            lo,
                            hi,
                        );
                        assert(order_next(o, lo, hi) == order_next(
                            OrderView::Random { gen: g1, finished: false },
                            lo,
                            hi,
                        ));
                    } else if a < lo || a > hi {
                        assert(order_next(o, lo, hi).1 is None);
                    } else {
                        assert(order_next(o, lo, hi).1 == Some(a));
                    }
                } else {
                    assert(order_next(o, lo, hi).1 is None);
                }
            } else {
                assert(order_next(o, lo, hi).1 is None);
            }
        },
        OrderView::Sequential { .. } => {},
    }
}

impl ScanPlan {
    #[verifier::type_invariant]
    spec fn well_formed(self) -> bool {
        &&& order_ok(self.order@)
        &&& order_from(self.order@, self.lo)
        &&& self.port_idx <= self.ports@.len()
        &&& (self.current matches Some(ip) ==> self.lo <= ip <= self.hi)
    }

    /// A scan of `lo..=hi` on `ports`, in the walk chosen by `seed` or in
    /// increasing order. A scan on no ports probes nothing.
    pub fn new(lo: u32, hi: u32, ports: Vec<u16>, randomize: bool, seed: u64) -> (p: Self)
        ensures
            randomize ==> p@ == random_plan(lo, hi, ports@, seed),
            !randomize ==> p@ == sequential_plan(lo, hi, ports@),
    {
        let order = if randomize {
            TargetOrder::Random { gen: PermutationGen::new(seed), finished: false }
        } else {
            TargetOrder::Sequential { next: lo, finished: false }
        };
        ScanPlan { lo, hi, ports, order, current: None, port_idx: 0 }
    }

    /// A scan of `lo..=hi` on `ports`; a randomised order takes a random
    /// seed.
    pub fn start(lo: u32, hi: u32, ports: Vec<u16>, randomize: bool) -> (p: Self)
        ensures
            randomize ==> exists|seed: u64| p@ == #[trigger] random_plan(lo, hi, ports@, seed),
            !randomize ==> p@ == sequential_plan(lo, hi, ports@),
    {
        let seed = if randomize { random_u64() } else { 0 };
        ScanPlan::new(lo, hi, ports, randomize, seed)
    }

    /// The next address and port to probe: every port of a target, in the
    /// order given, before the next target.
    pub fn next_probe(&mut self) -> (r: Option<(u32, u16)>)
        ensures
            (final(self)@, r) == plan_next(old(self)@),
            r matches Some((ip, port)) ==> old(self)@.lo <= ip <= old(self)@.hi && old(
                self,
            )@.ports.contains(port),
    {
        proof {
            use_type_invariant(&*self);
        }
        if self.ports.len() == 0 {
            return None;
        }
        if let Some(ip) = self.current {
            if self.port_idx < self.ports.len() {
                let port = self.ports[self.port_idx];
                self.port_idx = self.port_idx + 1;
                return Some((ip, port));
            }
        }
        let mut order = TargetOrder::Sequential { next: 0, finished: true };
        std::mem::swap(&mut order, &mut self.order);
        let (o1, t) = order.advance(self.lo, self.hi);
        proof {
            lemma_order_next_in_range(old(self)@.order, self.lo, self.hi);
        }
        match t {
            None => {
                self.order = o1;
                self.current = None;
                self.port_idx = 0;
                None
            },
            Some(ip) => {
                let port = self.ports[0];
                self.order = o1;
                self.current = Some(ip);
                self.port_idx = 1;
                Some((ip, port))
            },
        }
    }
}

/// The probe frame for `dst_ip:dst_port`: a random ephemeral source port,
/// the cookie of the probe as sequence number, and a random IPv4
/// identification.
pub fn probe_frame(tmpl: &PacketTemplate, dst_ip: u32, dst_port: u16) -> (r: Vec<u8>)
    ensures
        exists|src_port: u16, id: u16|
            EPHEMERAL_LOW <= src_port < EPHEMERAL_HIGH && r@ == tmpl.ethernet() + ip_header(
                tmpl.source(),
                dst_ip,
                id,
            ) + tcp_header(
                tmpl.source(),
                dst_ip,
                src_port,
                dst_port,
                cookie(tmpl.source(), dst_ip, src_port, dst_port),
            ),
{
    let src_port = random_in_range(EPHEMERAL_LOW, EPHEMERAL_HIGH);
    let src_ip = tmpl.source_ip();
    let seq = encode_seq(src_ip, dst_ip, src_port, dst_port);
    tmpl.generate(dst_ip, dst_port, seq, src_port)
}

/// The first `n` answers of `next_probe`, from plan `p`.
pub open spec fn probe_outputs(p: PlanView, n: nat) -> Seq<Option<(u32, u16)>>
    decreases n,
{
    if n == 0 {
        Seq::empty()
    } else {
        seq![plan_next(p).1] + probe_outputs(plan_next(p).0, (n - 1) as nat)
    }
}

/// The plan after `n` calls of `next_probe`.
pub open spec fn plan_after(p: PlanView, n: nat) -> PlanView
    decreases n,
{
    if n == 0 {
        p
    } else {
        plan_after(plan_next(p).0, (n - 1) as nat)
    }
}

/// Every port of `ports` on the address `ip`, in order.
pub open spec fn target_probes(ip: u32, ports: Seq<u16>) -> Seq<(u32, u16)> {
    ports.map_values(|port: u16| (ip, port))
}

/// Every address from `lo` to `hi` on every port, address by address.
pub open spec fn sweep(lo: int, hi: int, ports: Seq<u16>) -> Seq<(u32, u16)>
    decreases hi - lo + 1,
{
    if lo > hi || lo < 0 {
        Seq::empty()
    } else {
        target_probes(lo as u32, ports) + sweep(lo + 1, hi, ports)
    }
}

/// The plan of a sequential scan of `lo..=hi` on `ports` before its
/// first probe.
pub open spec fn sequential_plan(lo: u32, hi: u32, ports: Seq<u16>) -> PlanView {
    PlanView {
        lo,
        hi,
        ports,
        order: OrderView::Sequential { next: lo, finished: false },
        current: None,
        port_idx: 0,
    }
}

pub(crate) proof fn lemma_probe_split(p: PlanView, a: nat, b: nat)
    ensures
        probe_outputs(p, a + b) == probe_outputs(p, a) + probe_outputs(plan_after(p, a), b),
    decreases a,
{
    if a == 0 {
        assert(probe_outputs(p, 0) + probe_outputs(p, b) =~= probe_outputs(p, b));
    } else {
        lemma_probe_split(plan_next(p).0, (a - 1) as nat, b);
        assert((a + b - 1) as nat == (a - 1) as nat + b);
        assert(probe_outputs(p, a + b) =~= probe_outputs(p, a) + probe_outputs(plan_after(p, a), b));
    }
}

/// Within one target, the calls yield the remaining ports in order.
pub(crate) proof fn lemma_ports_phase(p: PlanView, ip: u32)
    requires
        p.current == Some(ip),
        p.port_idx <= p.ports.len(),
    ensures
        probe_outputs(p, (p.ports.len() - p.port_idx) as nat) == p.ports.skip(p.port_idx as int).map_values(
            |port: u16| Some((ip, port)),
        ),
        plan_after(p, (p.ports.len() - p.port_idx) as nat) == (PlanView { port_idx: p.ports.len(), ..p }),
    decreases p.ports.len() - p.port_idx,
{
    let m = p.ports.len();
    let k = p.port_idx;
    if k == m {
        assert(p.ports.skip(k as int).map_values(|port: u16| Some((ip, port))) =~= Seq::<
            Option<(u32, u16)>,
        >::empty());
        assert(p == (PlanView { port_idx: p.ports.len(), ..p }));
    } else {
        let p1 = PlanView { port_idx: k + 1, ..p };
        assert(plan_next(p) == (p1, Some((ip, p.ports[k as int]))));
        lemma_ports_phase(p1, ip);
        assert(((m - k) as nat - 1) as nat == (m - (k + 1)) as nat);
        assert(probe_outputs(p, (m - k) as nat) =~= p.ports.skip(k as int).map_values(
            |port: u16| Some((ip, port)),
        ));
    }
}

/// The sequential order standing at `ip`; one past the last address it
/// is the finished order.
pub open spec fn sequential_at(ip: int) -> OrderView {
    if ip <= u32::MAX {
        OrderView::Sequential { next: ip as u32, finished: false }
    } else {
        OrderView::Sequential { next: u32::MAX, finished: true }
    }
}

/// From a plan whose sequential order stands at `ip` with no ports of a
/// target left, the calls yield the rest of the sweep and then the end.
proof fn lemma_sweep_phase(q: PlanView, ip: int)
    requires
        q.ports.len() > 0,
        0 <= ip <= u32::MAX + 1,
        q.order == sequential_at(ip),
        q.current is None || q.port_idx >= q.ports.len(),
    ensures
        probe_outputs(q, sweep(ip, q.hi as int, q.ports).len() + 1) == sweep(
            ip,
            q.hi as int,
            q.ports,
        ).map_values(|x: (u32, u16)| Some(x)).push(None),
    decreases q.hi - ip + 1,
{
    let hi = q.hi as int;
    let ports = q.ports;
    let m = ports.len();
    if ip > hi {
        assert(sweep(ip, hi, ports) =~= Seq::<(u32, u16)>::empty());
        assert(plan_next(q).1 is None);
        assert(probe_outputs(plan_next(q).0, 0) =~= Seq::<Option<(u32, u16)>>::empty());
        assert(probe_outputs(q, 1) =~= seq![None::<(u32, u16)>]);
        assert(sweep(ip, hi, ports).map_values(|x: (u32, u16)| Some(x)).push(None) =~= seq![
            None::<(u32, u16)>,
        ]);
    } else {
        let t = PlanView { order: sequential_at(ip + 1), current: Some(ip as u32), port_idx: 1, ..q };
        assert(plan_next(q) == (t, Some((ip as u32, ports[0]))));
        let rest = sweep(ip + 1, hi, ports);
        let here = target_probes(ip as u32, ports);
        assert(sweep(ip, hi, ports) == here + rest);
        let n = sweep(ip, hi, ports).len() + 1;
        assert(n == m + rest.len() + 1);
        lemma_ports_phase(t, ip as u32);
        let t2 = PlanView { port_idx: m, ..t };
        lemma_sweep_phase(t2, ip + 1);
        lemma_probe_split(t, (m - 1) as nat, rest.len() + 1);
        assert(((n - 1) as nat) == (m - 1) as nat + (rest.len() + 1));
        let first = seq![Some((ip as u32, ports[0]))];
        let mid = ports.skip(1).map_values(|port: u16| Some((ip as u32, port)));
        let tail = rest.map_values(|x: (u32, u16)| Some(x)).push(None);
        assert(probe_outputs(q, n) == first + probe_outputs(t, (n - 1) as nat));
        assert(probe_outputs(t, (n - 1) as nat) == mid + tail);
        assert(first + (mid + tail) =~= sweep(ip, hi, ports).map_values(|x: (u32, u16)| Some(x)).push(
            None,
        ));
    }
}

/// On no ports the sweep is empty.
pub(crate) proof fn lemma_sweep_no_ports(lo: int, hi: int, ports: Seq<u16>)
    requires
        ports.len() == 0,
    ensures
        sweep(lo, hi, ports).len() == 0,
    decreases hi - lo + 1,
{
    if !(lo > hi || lo < 0) {
        lemma_sweep_no_ports(lo + 1, hi, ports);
    }
}

/// A sequential scan probes every address of its range on every port,
/// each pair once, address by address and port by port in the order
/// given, and then ends; this holds of every range, the one that ends at
/// 255.255.255.255 and an empty port list included.
pub proof fn lemma_sequential_scan_covers_range(lo: u32, hi: u32, ports: Seq<u16>)
    ensures
        probe_outputs(
            sequential_plan(lo, hi, ports),
            sweep(lo as int, hi as int, ports).len() + 1,
        ) == sweep(lo as int, hi as int, ports).map_values(|x: (u32, u16)| Some(x)).push(None),
{
    let p = sequential_plan(lo, hi, ports);
    if ports.len() == 0 {
        lemma_sweep_no_ports(lo as int, hi as int, ports);
        assert(plan_next(p) == (p, None::<(u32, u16)>));
        assert(probe_outputs(p, 0) =~= Seq::<Option<(u32, u16)>>::empty());
        assert(probe_outputs(p, 1) =~= seq![None::<(u32, u16)>]);
        assert(sweep(lo as int, hi as int, ports).map_values(|x: (u32, u16)| Some(x)).push(None)
            =~= seq![None::<(u32, u16)>]);
    } else {
        lemma_sweep_phase(p, lo as int);
    }
}

/// The plan of a randomised scan of `lo..=hi` on `ports` with the walk
/// chosen by `seed`, before its first probe.
pub open spec fn random_plan(lo: u32, hi: u32, ports: Seq<u16>, seed: u64) -> PlanView {
    PlanView {
        lo,
        hi,
        ports,
        order: OrderView::Random { gen: perm_start(seed), finished: false },
        current: None,
        port_idx: 0,
    }
}

proof fn lemma_plan_after_step(p: PlanView, a: nat)
    ensures
        plan_after(p, a + 1) == plan_next(plan_after(p, a)).0,
    decreases a,
{
    let q = plan_next(p).0;
    assert(plan_after(p, a + 1) == plan_after(q, a));
    if a > 0 {
        lemma_plan_after_step(q, (a - 1) as nat);
        assert((a - 1) as nat + 1 == a);
        assert(plan_after(p, a) == plan_after(q, (a - 1) as nat));
    } else {
        assert(plan_after(q, 0) == q);
        assert(plan_after(p, 0) == p);
    }
}

pub(crate) proof fn lemma_probe_outputs_len(p: PlanView, n: nat)
    ensures
        probe_outputs(p, n).len() == n,
    decreases n,
{
    if n > 0 {
        lemma_probe_outputs_len(plan_next(p).0, (n - 1) as nat);
    }
}

/// A randomised order that has not given up yields, as its next target,
/// the value of a later step of its walk, in range, with the walk not
/// passing its start on the way.
proof fn lemma_random_order_walk(g0: PermState, k: nat, lo: u32, hi: u32) -> (m: nat)
    requires
        fresh_walk(g0),
        k <= PRIME_32,
        forall|j: nat| 1 <= j <= k ==> #[trigger] walk(g0, j).current != g0.start,
    ensures
        order_next(OrderView::Random { gen: walk(g0, k), finished: false }, lo, hi).1 is Some ==> {
            &&& k < m <= PRIME_32
            &&& order_next(OrderView::Random { gen: walk(g0, k), finished: false }, lo, hi).0 == (
            OrderView::Random { gen: walk(g0, m), finished: false })
            &&& walk(g0, m).current <= 0xffff_ffff
            &&& order_next(OrderView::Random { gen: walk(g0, k), finished: false }, lo, hi).1 == Some(
                walk(g0, m).current as u32,
            )
            &&& forall|j: nat| 1 <= j < m ==> #[trigger] walk(g0, j).current != g0.start
        },
    decreases PRIME_32 - k,
{
    let g = walk(g0, k);
    let m1 = lemma_next_walk(g0, k);
    match perm_next(g).1 {
        None => k,
        Some(a) => {
            if a < lo || a > hi {
                if steps_left(perm_next(g).0) < steps_left(g) && walk(g0, m1).current != g0.start {
                    assert forall|j: nat| 1 <= j <= m1 implies #[trigger] walk(g0, j).current
                        != g0.start by {
                        if j < m1 {
                            assert(walk(g0, j).current != g0.start);
                        }
                    }
                    lemma_random_order_walk(g0, m1, lo, hi)
                } else if steps_left(perm_next(g).0) < steps_left(g) {
                    crate::permutation::lemma_walk_facts(g0, m1);
                    assert(perm_next(walk(g0, m1)).1 is None);
                    k
                } else {
                    k
                }
            } else {
                m1
            }
        },
    }
}

/// The steps of a randomised scan: after `k` probes the walk has taken
/// `M` steps without passing its start, probe `i` went to the address of
/// step `ms[i]` on port `ports[ps[i]]`, steps never go back, and within
/// one step the port indices rise.
proof fn lemma_random_plan_steps(lo: u32, hi: u32, ports: Seq<u16>, seed: u64, k: nat) -> (res: (
    nat,
    Seq<nat>,
    Seq<nat>,
))
    requires
        ports.len() > 0,
        forall|i: int| 0 <= i < k ==> (#[trigger] probe_outputs(random_plan(lo, hi, ports, seed), k)[i]) is Some,
    ensures
        ({
            let (big_m, ms, ps) = res;
            let g0 = perm_start(seed);
            let outs = probe_outputs(random_plan(lo, hi, ports, seed), k);
            let pk = plan_after(random_plan(lo, hi, ports, seed), k);
            &&& big_m <= PRIME_32
            &&& forall|j: nat| 1 <= j < big_m ==> #[trigger] walk(g0, j).current != g0.start
            &&& pk.order == (OrderView::Random { gen: walk(g0, big_m), finished: false })
            &&& pk.lo == lo && pk.hi == hi && pk.ports == ports
            &&& ms.len() == k && ps.len() == k
            &&& k == 0 ==> pk.current is None
            &&& k > 0 ==> pk.current == Some(walk(g0, big_m).current as u32) && 1 <= pk.port_idx
                <= ports.len() && walk(g0, big_m).current <= 0xffff_ffff
            &&& forall|i: int|
                0 <= i < k ==> 1 <= #[trigger] ms[i] <= big_m && ps[i] < ports.len() && walk(
                    g0,
                    ms[i],
                ).current <= 0xffff_ffff && outs[i] == Some(
                    (walk(g0, ms[i]).current as u32, ports[ps[i] as int]),
                )
            &&& forall|i: int| 0 <= i < k && ms[i] == big_m ==> ps[i] < pk.port_idx
            &&& forall|i: int, j: int|
                0 <= i < j < k ==> ms[i] <= ms[j] && (ms[i] == ms[j] ==> ps[i] < ps[j])
        }),
    decreases k,
{
    let p0 = random_plan(lo, hi, ports, seed);
    let g0 = perm_start(seed);
    assert(walk(g0, 0) == g0);
    if k == 0 {
        (0, Seq::empty(), Seq::empty())
    } else {
        let km = (k - 1) as nat;
        lemma_probe_split(p0, km, 1);
        lemma_probe_outputs_len(p0, km);
        lemma_probe_outputs_len(p0, k);
        let outs = probe_outputs(p0, k);
        let prev = probe_outputs(p0, km);
        let pk1 = plan_after(p0, km);
        assert(probe_outputs(pk1, 1) == seq![plan_next(pk1).1] + probe_outputs(plan_next(pk1).0, 0));
        assert(outs == prev + seq![plan_next(pk1).1]);
        assert forall|i: int| 0 <= i < km implies (#[trigger] prev[i]) is Some by {
            assert(prev[i] == outs[i]);
        }
        let (big_m, ms, ps) = lemma_random_plan_steps(lo, hi, ports, seed, km);
        lemma_plan_after_step(p0, km);
        let pk = plan_after(p0, k);
        assert(pk == plan_next(pk1).0);
        assert(outs[km as int] == plan_next(pk1).1);
        assert(plan_next(pk1).1 is Some);
        match pk1.current {
            Some(c) if pk1.port_idx < pk1.ports.len() => {
                let ms2 = ms.push(big_m);
                let ps2 = ps.push(pk1.port_idx);
                assert forall|i: int| 0 <= i < k implies 1 <= #[trigger] ms2[i] <= big_m && ps2[i]
                    < ports.len() && walk(g0, ms2[i]).current <= 0xffff_ffff && outs[i] == Some(
                    (walk(g0, ms2[i]).current as u32, ports[ps2[i] as int]),
                ) by {
                    if i < km {
                        assert(ms2[i] == ms[i] && ps2[i] == ps[i] && outs[i] == prev[i]);
                    } else {
                        assert(km > 0);
                        assert(1 <= ms[km as int - 1] <= big_m);
                        assert(ms2[i] == big_m && ps2[i] == pk1.port_idx);
                        assert(plan_next(pk1).1 == Some((c, pk1.ports[pk1.port_idx as int])));
                        assert(c == walk(g0, big_m).current as u32);
                    }
                }
                assert forall|i: int, j: int| 0 <= i < j < k implies ms2[i] <= ms2[j] && (ms2[i]
                    == ms2[j] ==> ps2[i] < ps2[j]) by {
                    if j == km {
                        assert(ms2[i] == ms[i]);
                    } else {
                        assert(ms2[i] == ms[i] && ms2[j] == ms[j]);
                    }
                }
                (big_m, ms2, ps2)
            },
            _ => {
                if big_m >= 1 && walk(g0, big_m).current == g0.start {
                    crate::permutation::lemma_walk_facts(g0, big_m);
                    assert(perm_next(walk(g0, big_m)).1 is None);
                    assert(plan_next(pk1).1 is None);
                }
                assert forall|j: nat| 1 <= j <= big_m implies #[trigger] walk(g0, j).current
                    != g0.start by {
                    if j < big_m {
                        assert(walk(g0, j).current != g0.start);
                    }
                }
                let m2 = lemma_random_order_walk(g0, big_m, lo, hi);
                let ms2 = ms.push(m2);
                let ps2 = ps.push(0nat);
                assert forall|i: int| 0 <= i < k implies 1 <= #[trigger] ms2[i] <= m2 && ps2[i]
                    < ports.len() && walk(g0, ms2[i]).current <= 0xffff_ffff && outs[i] == Some(
                    (walk(g0, ms2[i]).current as u32, ports[ps2[i] as int]),
                ) by {
                    if i < km {
                        assert(ms2[i] == ms[i] && ps2[i] == ps[i] && outs[i] == prev[i]);
                    }
                }
                assert forall|i: int, j: int| 0 <= i < j < k implies ms2[i] <= ms2[j] && (ms2[i]
                    == ms2[j] ==> ps2[i] < ps2[j]) by {
                    if j == km {
                        assert(ms2[i] == ms[i]);
                    } else {
                        assert(ms2[i] == ms[i] && ms2[j] == ms[j]);
                    }
                }
                (m2, ms2, ps2)
            },
        }
    }
}

/// A randomised scan never probes the same address on the same port twice:
/// before the plan first reports its end, its probes are pairwise
/// distinct, provided the port list has no repeats.
pub proof fn lemma_random_scan_never_repeats(lo: u32, hi: u32, ports: Seq<u16>, seed: u64, n: nat)
    requires
        ports.len() > 0,
        ports.no_duplicates(),
        forall|i: int| 0 <= i < n ==> (#[trigger] probe_outputs(random_plan(lo, hi, ports, seed), n)[i]) is Some,
    ensures
        forall|i: int, j: int|
            0 <= i < j < n ==> probe_outputs(random_plan(lo, hi, ports, seed), n)[i] != probe_outputs(
                random_plan(lo, hi, ports, seed),
                n,
            )[j],
{
    let g0 = perm_start(seed);
    let (big_m, ms, ps) = lemma_random_plan_steps(lo, hi, ports, seed, n);
    let outs = probe_outputs(random_plan(lo, hi, ports, seed), n);
    assert forall|i: int, j: int| 0 <= i < j < n implies outs[i] != outs[j] by {
        assert(1 <= ms[i] <= big_m && 1 <= ms[j] <= big_m);
        if ms[i] < ms[j] {
            assert forall|m: nat| 1 <= m < ms[j] implies #[trigger] walk(g0, m).current
                != g0.start by {
                assert(m < big_m);
            }
            crate::permutation::lemma_distinct_steps(g0, ms[i], ms[j]);
        } else {
            assert(ps[i] < ps[j]);
        }
    }
}

/// From a step before the walk's return, the randomised order's next
/// target is the first address in the range that the walk reaches.
proof fn lemma_order_finds(g0: PermState, k: nat, m: nat, lo: u32, hi: u32) -> (m2: nat)
    requires
        fresh_walk(g0),
        forall|j: nat| 1 <= j < group_size() ==> #[trigger] walk(g0, j).current != g0.start,
        k < m <= group_size(),
        1 <= walk(g0, m).current,
        lo <= walk(g0, m).current <= hi,
    ensures
        k < m2 <= m,
        lo <= walk(g0, m2).current <= hi,
        order_next(OrderView::Random { gen: walk(g0, k), finished: false }, lo, hi) == (
        OrderView::Random { gen: walk(g0, m2), finished: false }, Some(walk(g0, m2).current as u32)),
    decreases m - k,
{
    let m1 = crate::group::lemma_next_finds(g0, k, m);
    crate::permutation::lemma_walk_facts(g0, k);
    crate::permutation::lemma_walk_facts(g0, m1);
    let v = walk(g0, m1).current;
    if v < lo || v > hi {
        assert(steps_left(walk(g0, m1)) < steps_left(walk(g0, k)));
        lemma_order_finds(g0, m1, m, lo, hi)
    } else {
        m1
    }
}

/// From a plan between targets whose walk stands before its return,
/// successive probes reach every port of every address in the range that
/// the walk reaches.
proof fn lemma_plan_yields(g0: PermState, q: PlanView, k: nat, m: nat, j: int, n: nat) -> (i: int)
    requires
        fresh_walk(g0),
        forall|x: nat| 1 <= x < group_size() ==> #[trigger] walk(g0, x).current != g0.start,
        q.ports.len() > 0,
        q.order == (OrderView::Random { gen: walk(g0, k), finished: false }),
        q.current is None || q.port_idx >= q.ports.len(),
        k < m <= group_size(),
        1 <= walk(g0, m).current,
        q.lo <= walk(g0, m).current <= q.hi,
        0 <= j < q.ports.len(),
        n >= (m - k) * q.ports.len(),
    ensures
        0 <= i < (m - k) * q.ports.len(),
        probe_outputs(q, n)[i] == Some((walk(g0, m).current as u32, q.ports[j])),
        forall|i2: int| 0 <= i2 < i ==> (#[trigger] probe_outputs(q, n)[i2]) is Some,
    decreases m - k,
{
    let np = q.ports.len();
    let m2 = lemma_order_finds(g0, k, m, q.lo, q.hi);
    let t = walk(g0, m2).current as u32;
    let q1 = PlanView {
        order: OrderView::Random { gen: walk(g0, m2), finished: false },
        current: Some(t),
        port_idx: 1,
        ..q
    };
    assert(plan_next(q) == (q1, Some((t, q.ports[0]))));
    lemma_ports_phase(q1, t);
    let q2 = PlanView { port_idx: np, ..q1 };
    assert(plan_after(q1, (np - 1) as nat) == q2);
    assert(n >= np) by (nonlinear_arith)
        requires
            n >= (m - k) * np,
            m - k >= 1,
            np >= 1,
    ;
    let outs = probe_outputs(q, n);
    lemma_probe_outputs_len(q, n);
    assert(outs == seq![Some((t, q.ports[0]))] + probe_outputs(q1, (n - 1) as nat));
    lemma_probe_split(q1, (np - 1) as nat, (n - np) as nat);
    assert((np - 1) as nat + (n - np) as nat == (n - 1) as nat);
    let mid = probe_outputs(q1, (np - 1) as nat);
    let rest = probe_outputs(q2, (n - np) as nat);
    lemma_probe_outputs_len(q1, (np - 1) as nat);
    lemma_probe_outputs_len(q2, (n - np) as nat);
    assert(mid == q.ports.skip(1).map_values(|port: u16| Some((t, port))));
    assert(outs == seq![Some((t, q.ports[0]))] + mid + rest);
    assert forall|i2: int| 0 <= i2 < np implies (#[trigger] outs[i2]) == Some((t, q.ports[i2])) by {
        if i2 > 0 {
            assert(outs[i2] == mid[i2 - 1]);
        }
    }
    if m2 == m {
        assert((m - k) * np >= np) by (nonlinear_arith)
            requires
                m - k >= 1,
                np >= 1,
        ;
        j
    } else {
        assert((n - np) as nat >= (m - m2) * np) by (nonlinear_arith)
            requires
                n >= (m - k) * np,
                m2 >= k + 1,
                np >= 1,
        ;
        let i2 = lemma_plan_yields(g0, q2, m2, m, j, (n - np) as nat);
        assert(outs[np + i2] == rest[i2]);
        assert forall|i3: int| 0 <= i3 < np + i2 implies (#[trigger] outs[i3]) is Some by {
            if i3 >= np {
                assert(outs[i3] == rest[i3 - np]);
            }
        }
        assert(np + i2 < (m - k) * np) by (nonlinear_arith)
            requires
                i2 < (m - m2) * np,
                m2 >= k + 1,
                np >= 1,
        ;
        np + i2
    }
}

/// A randomised scan covers its range: before the plan first reports its
/// end, it probes every nonzero address of the range on every port (and,
/// by `lemma_random_scan_never_repeats`, each pair only once).
pub proof fn lemma_random_scan_covers_range(
    lo: u32,
    hi: u32,
    ports: Seq<u16>,
    seed: u64,
    a: u32,
    j: int,
)
    requires
        ports.len() > 0,
        lo <= a <= hi,
        a != 0,
        0 <= j < ports.len(),
    ensures
        exists|i: int|
            0 <= i < PRIME_32 * ports.len() && #[trigger] probe_outputs(
                random_plan(lo, hi, ports, seed),
                (PRIME_32 * ports.len()) as nat,
            )[i] == Some((a, ports[j])) && forall|i2: int|
                0 <= i2 < i ==> (#[trigger] probe_outputs(
                    random_plan(lo, hi, ports, seed),
                    (PRIME_32 * ports.len()) as nat,
                )[i2]) is Some,
{
    let g0 = perm_start(seed);
    assert(fresh_walk(g0));
    lemma_walk_cycle(g0);
    assert(walk_reaches(g0, a as int));
    let m = choose|m: nat| 1 <= m <= group_size() && #[trigger] walk(g0, m).current == a as int;
    assert(walk(g0, 0) == g0);
    let n = (PRIME_32 * ports.len()) as nat;
    assert(n >= m * ports.len()) by (nonlinear_arith)
        requires
            n == PRIME_32 * ports.len(),
            m <= 4294967310,
    ;
    let i = lemma_plan_yields(g0, random_plan(lo, hi, ports, seed), 0, m, j, n);
    assert(i < PRIME_32 * ports.len()) by (nonlinear_arith)
        requires
            i < (m - 0) * ports.len(),
            m <= 4294967310,
    ;
}

} // verus!
