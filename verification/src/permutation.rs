//! Randomised scan order: a walk through the multiplicative group modulo a
//! prime just above 2^32.

use vstd::prelude::*;
use vstd::wrapping::u64_specs::wrapping_mul;
use vstd::arithmetic::div_mod::{lemma_mul_mod_noop_left, lemma_mul_mod_noop_right, lemma_small_mod};
use vstd::arithmetic::mul::lemma_mul_is_associative;

verus! {

/// The prime modulus of the walk: 2^32 + 15.
pub const PRIME_32: u64 = 4294967311;

/// The multiplier that a seed selects: one of six primitive roots modulo
/// `PRIME_32`, by `seed % 6`.
pub open spec fn root_for(seed: u64) -> u64 {
    let i = seed % 6;
    if i == 0 {
        3
    } else if i == 1 {
        13
    } else if i == 2 {
        15
    } else if i == 3 {
        21
    } else if i == 4 {
        24
    } else {
        29
    }
}

/// Whether `r` is one of the six multipliers.
pub open spec fn is_multiplier(r: u64) -> bool {
    r == 3 || r == 13 || r == 15 || r == 21 || r == 24 || r == 29
}

/// State of a walk: the modulus, the multiplier, the current and the first
/// value, and the number of steps taken.
pub struct PermState {
    pub prime: u64,
    pub root: u64,
    pub current: u64,
    pub start: u64,
    pub count: u64,
}

/// Generator of a pseudo-random order of IPv4 addresses: repeated
/// multiplication by a small multiplier modulo `PRIME_32`.
pub struct PermutationGen {
    prime: u64,
    root: u64,
    current: u64,
    start: u64,
    count: u64,
}

impl View for PermutationGen {
    type V = PermState;

    closed spec fn view(&self) -> PermState {
        PermState {
            prime: self.prime,
            root: self.root,
            current: self.current,
            start: self.start,
            count: self.count,
        }
    }
}

/// The state in which the walk chosen by `seed` starts.
pub open spec fn perm_start(seed: u64) -> PermState {
    let c = if seed % PRIME_32 == 0 { 1 } else { seed % PRIME_32 };
    PermState { prime: PRIME_32, root: root_for(seed), current: c as u64, start: c as u64, count: 0 }
}

/// One multiplication step of the walk.
pub open spec fn perm_step(g: PermState) -> PermState {
    PermState {
        prime: g.prime,
        root: g.root,
        current: (wrapping_mul(g.current, g.root) % g.prime) as u64,
        start: g.start,
        count: (g.count + 1) as u64,
    }
}

/// Measure of the steps left before the walk gives up.
pub open spec fn steps_left(g: PermState) -> nat {
    if g.count <= g.prime {
        (g.prime - g.count + 1) as nat
    } else {
        0
    }
}

/// What `next` does from state `g`: once the walk has come back to its
/// start it is over (`None`); otherwise it steps until it has stepped more
/// often than `prime` (`None`) or reaches a value from 1 to 2^32 - 1, which
/// it yields as an address (the start itself included, when the walk comes
/// back to it).
pub open spec fn perm_next(g: PermState) -> (PermState, Option<u32>)
    decreases steps_left(g),
{
    if g.count > 0 && g.current == g.start {
        (g, None)
    } else {
        let g1 = perm_step(g);
        if g1.count > g1.prime {
            (g1, None)
        } else if g1.current == 0 || g1.current > 0xffff_ffff {
            if g.count < g.prime {
                perm_next(g1)
            } else {
                (g1, None)
            }
        } else {
            (g1, Some(g1.current as u32))
        }
    }
}

impl PermutationGen {
    #[verifier::type_invariant]
    spec fn well_formed(self) -> bool {
        &&& self.prime == PRIME_32
        &&& is_multiplier(self.root)
        &&& 1 <= self.start < PRIME_32
        &&& self.current < PRIME_32
    }

    /// Starts a walk chosen by `seed`: the multiplier is picked by
    /// `seed % 6`, the starting point is `seed % PRIME_32` (1 if that is 0).
    pub fn new(seed: u64) -> (g: Self)
        ensures
            g@ == perm_start(seed),
    {
        let roots: [u64; 6] = [3u64, 13, 15, 21, 24, 29];
        let root = roots[(seed % 6) as usize];
        let m = seed % PRIME_32;
        let current = if m < 1 { 1 } else { m };
        PermutationGen { prime: PRIME_32, root, current, start: current, count: 0 }
    }

    /// The next address of the walk, or `None` when the walk is over.
    pub fn next(&mut self) -> (r: Option<u32>)
        requires
            old(self)@.count < u64::MAX,
        ensures
            (final(self)@, r) == perm_next(old(self)@),
            final(self)@.prime == PRIME_32,
            is_multiplier(final(self)@.root),
            1 <= final(self)@.start < PRIME_32,
            final(self)@.current < PRIME_32,
    {
        proof {
            use_type_invariant(&*self);
        }
        loop
            invariant
                self.prime == PRIME_32,
                self.count < u64::MAX,
                perm_next(self@) == perm_next(old(self)@),
            decreases steps_left(self@),
        {
            proof {
                use_type_invariant(&*self);
            }
            if self.count > 0 && self.current == self.start {
                return None;
            }
            let ghost g = self@;
            self.current = (self.current.wrapping_mul(self.root)) % self.prime;
            self.count = self.count + 1;
            assert(self@ == perm_step(g));
            if self.count > self.prime {
                return None;
            }
            if self.current == 0 || self.current > 0xffff_ffff {
                continue;
            }
            return Some(self.current as u32);
        }
    }
}

/// The state after `k` steps of the walk from `g`.
pub open spec fn walk(g: PermState, k: nat) -> PermState
    decreases k,
{
    if k == 0 {
        g
    } else {
        perm_step(walk(g, (k - 1) as nat))
    }
}

/// The first `n` answers of `next`, from state `g`.
pub open spec fn next_outputs(g: PermState, n: nat) -> Seq<Option<u32>>
    decreases n,
{
    if n == 0 {
        Seq::empty()
    } else {
        seq![perm_next(g).1] + next_outputs(perm_next(g).0, (n - 1) as nat)
    }
}

pub(crate) proof fn lemma_next_outputs_len(g: PermState, n: nat)
    ensures
        next_outputs(g, n).len() == n,
    decreases n,
{
    if n > 0 {
        lemma_next_outputs_len(perm_next(g).0, (n - 1) as nat);
    }
}

/// Whether `g` is the state of a walk that has not moved yet.
pub open spec fn fresh_walk(g: PermState) -> bool {
    &&& g.prime == PRIME_32
    &&& is_multiplier(g.root)
    &&& 1 <= g.start < PRIME_32
    &&& g.current == g.start
    &&& g.count == 0
}

/// The inverse of a multiplier modulo `PRIME_32`.
pub open spec fn inverse_of(r: u64) -> int {
    if r == 3 {
        2863311541
    } else if r == 13 {
        2312674706
    } else if r == 15 {
        4008636157
    } else if r == 21 {
        2249744782
    } else if r == 24 {
        3042268512
    } else {
        2073432495
    }
}

/// `inverse_of(r)` is the inverse of the multiplier `r` modulo `PRIME_32`.
pub(crate) proof fn lemma_inverse_of(r: u64)
    requires
        is_multiplier(r),
    ensures
        (r * inverse_of(r)) % (PRIME_32 as int) == 1,
{
    if r == 3 {
        assert((3 * 2863311541int) % 4294967311int == 1);
    } else if r == 13 {
        assert((13 * 2312674706int) % 4294967311int == 1);
    } else if r == 15 {
        assert((15 * 4008636157int) % 4294967311int == 1);
    } else if r == 21 {
        assert((21 * 2249744782int) % 4294967311int == 1);
    } else if r == 24 {
        assert((24 * 3042268512int) % 4294967311int == 1);
    } else {
        assert((29 * 2073432495int) % 4294967311int == 1);
    }
}

/// Multiplying by a multiplier modulo `PRIME_32` loses nothing.
proof fn lemma_mul_cancel(x: int, y: int, r: u64)
    requires
        0 <= x < PRIME_32,
        0 <= y < PRIME_32,
        is_multiplier(r),
        (x * r) % (PRIME_32 as int) == (y * r) % (PRIME_32 as int),
    ensures
        x == y,
{
    let p = PRIME_32 as int;
    let inv = inverse_of(r);
    lemma_inverse_of(r);
    lemma_mul_mod_noop_right(x, r * inv, p);
    lemma_mul_mod_noop_right(y, r * inv, p);
    lemma_mul_is_associative(x, r as int, inv);
    lemma_mul_is_associative(y, r as int, inv);
    lemma_mul_mod_noop_left(x * r, inv, p);
    lemma_mul_mod_noop_left(y * r, inv, p);
    lemma_small_mod(x as nat, p as nat);
    lemma_small_mod(y as nat, p as nat);
}

pub(crate) proof fn lemma_walk_facts(g: PermState, k: nat)
    requires
        g.prime == PRIME_32,
        is_multiplier(g.root),
        g.current < PRIME_32,
        g.count + k < u64::MAX,
    ensures
        walk(g, k).prime == g.prime,
        walk(g, k).root == g.root,
        walk(g, k).start == g.start,
        walk(g, k).count == g.count + k,
        walk(g, k).current < PRIME_32,
        k > 0 ==> walk(g, k).current == (walk(g, (k - 1) as nat).current * g.root) % (
        PRIME_32 as int),
    decreases k,
{
    if k > 0 {
        lemma_walk_facts(g, (k - 1) as nat);
        let c = walk(g, (k - 1) as nat).current;
        let r = g.root;
        assert(c * r < 0x1_0000_0000_0000_0000) by (nonlinear_arith)
            requires
                c < PRIME_32,
                r <= 29,
        ;
        lemma_small_mod((c * r) as nat, 0x1_0000_0000_0000_0000nat);
    }
}

/// Between two visits of its start, a walk takes no value twice.
pub(crate) proof fn lemma_no_repeat(g0: PermState, i: nat, j: nat)
    requires
        fresh_walk(g0),
        i < j <= PRIME_32,
        forall|m: nat| 1 <= m <= j ==> #[trigger] walk(g0, m).current != g0.start,
    ensures
        walk(g0, i).current != walk(g0, j).current,
    decreases i,
{
    if i > 0 {
        lemma_no_repeat(g0, (i - 1) as nat, (j - 1) as nat);
        lemma_walk_facts(g0, i);
        lemma_walk_facts(g0, j);
        lemma_walk_facts(g0, (i - 1) as nat);
        lemma_walk_facts(g0, (j - 1) as nat);
        if walk(g0, i).current == walk(g0, j).current {
            lemma_mul_cancel(
                walk(g0, (i - 1) as nat).current as int,
                walk(g0, (j - 1) as nat).current as int,
                g0.root,
            );
        }
    } else {
        assert(walk(g0, j).current != g0.start);
    }
}

/// One call of `next` on a walk that has not yet come back to its start:
/// an address it yields is the value reached some steps later, and the
/// walk did not pass its start before that step.
pub(crate) proof fn lemma_next_walk(g0: PermState, k: nat) -> (m: nat)
    requires
        fresh_walk(g0),
        k <= PRIME_32,
        forall|m: nat| 1 <= m <= k ==> #[trigger] walk(g0, m).current != g0.start,
    ensures
        perm_next(walk(g0, k)).1 is Some ==> {
            &&& k < m <= PRIME_32
            &&& perm_next(walk(g0, k)).0 == walk(g0, m)
            &&& 1 <= walk(g0, m).current <= 0xffff_ffff
            &&& perm_next(walk(g0, k)).1 == Some(walk(g0, m).current as u32)
            &&& forall|m2: nat| 1 <= m2 < m ==> #[trigger] walk(g0, m2).current != g0.start
        },
    decreases PRIME_32 - k,
{
    let g = walk(g0, k);
    lemma_walk_facts(g0, k);
    lemma_walk_facts(g0, k + 1);
    let g1 = perm_step(g);
    assert(g1 == walk(g0, k + 1));
    if k > 0 {
        assert(walk(g0, k).current != g0.start);
    }
    if g1.count > g1.prime {
        k
    } else if g1.current == 0 || g1.current > 0xffff_ffff {
        if g.count < g.prime && g1.current != g0.start {
            assert forall|m2: nat| 1 <= m2 <= k + 1 implies #[trigger] walk(g0, m2).current != g0.start by {
                if m2 <= k {
                    assert(walk(g0, m2).current != g0.start);
                }
            }
            lemma_next_walk(g0, k + 1)
        } else {
            k
        }
    } else {
        assert forall|m2: nat| 1 <= m2 < k + 1 implies #[trigger] walk(g0, m2).current != g0.start by {
            assert(walk(g0, m2).current != g0.start);
        }
        k + 1
    }
}

/// Once a walk is back at its start, `next` reports its end.
proof fn lemma_next_after_return(g0: PermState, m: nat)
    requires
        fresh_walk(g0),
        1 <= m <= PRIME_32,
        walk(g0, m).current == g0.start,
    ensures
        perm_next(walk(g0, m)).1 is None,
{
    lemma_walk_facts(g0, m);
}

/// The steps at which successive calls of `next` yield their addresses.
proof fn lemma_output_steps(g0: PermState, k: nat, n: nat) -> (ms: Seq<nat>)
    requires
        fresh_walk(g0),
        k <= PRIME_32,
        n > 0 ==> forall|m: nat| 1 <= m <= k ==> #[trigger] walk(g0, m).current != g0.start,
        forall|i: int| 0 <= i < n ==> (#[trigger] next_outputs(walk(g0, k), n)[i]) is Some,
    ensures
        ms.len() == n,
        forall|i: int| 0 <= i < n ==> k < #[trigger] ms[i] <= PRIME_32,
        forall|a: int, b: int| 0 <= a < b < n ==> ms[a] < ms[b],
        forall|i: int|
            0 <= i < n ==> 1 <= walk(g0, #[trigger] ms[i]).current <= 0xffff_ffff && next_outputs(
                walk(g0, k),
                n,
            )[i] == Some(walk(g0, ms[i]).current as u32),
        n > 0 ==> forall|m: nat| 1 <= m < ms[n - 1] ==> #[trigger] walk(g0, m).current != g0.start,
    decreases n,
{
    if n == 0 {
        Seq::empty()
    } else {
        let outs = next_outputs(walk(g0, k), n);
        assert(outs[0] is Some);
        let m = lemma_next_walk(g0, k);
        let rest_outs = next_outputs(walk(g0, m), (n - 1) as nat);
        lemma_next_outputs_len(walk(g0, m), (n - 1) as nat);
        assert(outs == seq![perm_next(walk(g0, k)).1] + rest_outs);
        assert forall|i: int| 0 <= i < n - 1 implies (#[trigger] rest_outs[i]) is Some by {
            assert(outs[i + 1] == rest_outs[i]);
        }
        if n > 1 {
            assert(rest_outs[0] is Some);
            if walk(g0, m).current == g0.start {
                lemma_next_after_return(g0, m);
                assert(rest_outs[0] == perm_next(walk(g0, m)).1);
            }
            assert forall|m2: nat| 1 <= m2 <= m implies #[trigger] walk(g0, m2).current != g0.start by {
                if m2 < m {
                    assert(walk(g0, m2).current != g0.start);
                }
            }
        }
        let rest = lemma_output_steps(g0, m, (n - 1) as nat);
        let ms = seq![m] + rest;
        assert forall|i: int| 0 <= i < n implies 1 <= walk(g0, #[trigger] ms[i]).current <= 0xffff_ffff
            && outs[i] == Some(walk(g0, ms[i]).current as u32) by {
            if i > 0 {
                assert(ms[i] == rest[i - 1]);
                assert(outs[i] == rest_outs[i - 1]);
            }
        }
        assert forall|a: int, b: int| 0 <= a < b < n implies ms[a] < ms[b] by {
            if a > 0 {
                assert(ms[a] == rest[a - 1]);
            }
            assert(ms[b] == rest[b - 1]);
        }
        if n > 1 {
            assert(ms[n - 1] == rest[n - 2]);
        }
        ms
    }
}

/// Two steps of a walk, the later one not past its first return to the
/// start, reach different values.
pub(crate) proof fn lemma_distinct_steps(g0: PermState, a: nat, b: nat)
    requires
        fresh_walk(g0),
        1 <= a < b <= PRIME_32,
        forall|m: nat| 1 <= m < b ==> #[trigger] walk(g0, m).current != g0.start,
    ensures
        walk(g0, a).current != walk(g0, b).current,
{
    if walk(g0, b).current == g0.start {
        assert(walk(g0, a).current != g0.start);
    } else {
        assert forall|m: nat| 1 <= m <= b implies #[trigger] walk(g0, m).current != g0.start by {
            if m < b {
                assert(walk(g0, m).current != g0.start);
            }
        }
        lemma_no_repeat(g0, a, b);
    }
}

/// A randomised scan never probes an address twice: until `next` first
/// reports the end of the walk, no address it yields repeats an earlier one.
pub proof fn lemma_walk_never_repeats(seed: u64, n: nat)
    requires
        forall|i: int| 0 <= i < n ==> (#[trigger] next_outputs(perm_start(seed), n)[i]) is Some,
    ensures
        forall|i: int, j: int|
            0 <= i < j < n ==> next_outputs(perm_start(seed), n)[i] != next_outputs(
                perm_start(seed),
                n,
            )[j],
{
    let g0 = perm_start(seed);
    assert(walk(g0, 0) == g0);
    let ms = lemma_output_steps(g0, 0, n);
    let outs = next_outputs(g0, n);
    assert forall|i: int, j: int| 0 <= i < j < n implies outs[i] != outs[j] by {
        let a = ms[i];
        let b = ms[j];
        assert(walk(g0, a).current <= 0xffff_ffff);
        assert(walk(g0, b).current <= 0xffff_ffff);
        assert(b <= ms[n - 1]) by {
            if j < n - 1 {
                assert(ms[j] < ms[n - 1]);
            }
        }
        assert forall|m: nat| 1 <= m < b implies #[trigger] walk(g0, m).current != g0.start by {
            assert(m < ms[n - 1]);
        }
        lemma_distinct_steps(g0, a, b);
    }
}

proof fn lemma_next_outputs_prefix(g: PermState, n: nat, big_n: nat)
    requires
        n <= big_n,
    ensures
        next_outputs(g, n) == next_outputs(g, big_n).take(n as int),
    decreases n,
{
    lemma_next_outputs_len(g, big_n);
    if n > 0 {
        lemma_next_outputs_prefix(perm_next(g).0, (n - 1) as nat, (big_n - 1) as nat);
        assert(next_outputs(g, n) =~= next_outputs(g, big_n).take(n as int));
    } else {
        assert(next_outputs(g, 0) =~= next_outputs(g, big_n).take(0));
    }
}

proof fn lemma_rising_steps(ms: Seq<nat>, i: int)
    requires
        0 <= i < ms.len(),
        forall|a: int, b: int| 0 <= a < b < ms.len() ==> ms[a] < ms[b],
        ms.len() > 0 ==> ms[0] >= 1,
    ensures
        ms[i] >= i + 1,
    decreases i,
{
    if i > 0 {
        lemma_rising_steps(ms, i - 1);
    }
}

/// A walk ends: among the first `PRIME_32` answers of `next` there is an
/// end (`None`), and every address yielded before the first end is
/// nonzero.
pub proof fn lemma_walk_ends(seed: u64)
    ensures
        ({
            let outs = next_outputs(perm_start(seed), PRIME_32 as nat);
            exists|k: int|
                0 <= k < PRIME_32 && #[trigger] outs[k] is None && forall|i: int|
                    0 <= i < k ==> ((#[trigger] outs[i]) matches Some(a) && a != 0)
        }),
{
    let g0 = perm_start(seed);
    let big_n = PRIME_32 as nat;
    let outs = next_outputs(g0, big_n);
    lemma_next_outputs_len(g0, big_n);
    assert(walk(g0, 0) == g0);
    if forall|i: int| 0 <= i < big_n ==> (#[trigger] outs[i]) is Some {
        // the walk is back at its start after `group_size()` steps, which
        // is fewer than the steps that `PRIME_32` yields take
        let ms = lemma_output_steps(g0, 0, big_n);
        lemma_rising_steps(ms, PRIME_32 - 1);
        crate::group::lemma_walk_cycle(g0);
        let last = crate::group::group_size();
        assert(1 <= last < ms[PRIME_32 - 1]);
        assert(walk(g0, last).current != g0.start);
        assert(false);
    }
    let k = choose|k: int| 0 <= k < big_n && !((#[trigger] outs[k]) is Some);
    let k0 = lemma_first_none(outs, k);
    lemma_next_outputs_prefix(g0, k0 as nat, big_n);
    let pre = next_outputs(g0, k0 as nat);
    assert forall|i: int| 0 <= i < k0 implies (#[trigger] pre[i]) is Some by {
        assert(pre[i] == outs[i]);
    }
    let ms = lemma_output_steps(g0, 0, k0 as nat);
    assert forall|i: int| 0 <= i < k0 implies ((#[trigger] outs[i]) matches Some(a) && a != 0) by {
        assert(pre[i] == outs[i]);
        assert(1 <= walk(g0, ms[i]).current <= 0xffff_ffff);
    }
    assert(outs[k0] is None);
}

proof fn lemma_first_none(outs: Seq<Option<u32>>, k: int) -> (k0: int)
    requires
        0 <= k < outs.len(),
        outs[k] is None,
    ensures
        0 <= k0 <= k,
        outs[k0] is None,
        forall|i: int| 0 <= i < k0 ==> (#[trigger] outs[i]) is Some,
    decreases k,
{
    if k > 0 && forall|i: int| 0 <= i < k ==> (#[trigger] outs[i]) is Some {
        k
    } else if k > 0 {
        let j = choose|j: int| 0 <= j < k && !((#[trigger] outs[j]) is Some);
        lemma_first_none(outs, j)
    } else {
        k
    }
}

} // verus!
