//! Timing decisions of the transmitter and the receiver: how long to wait
//! to keep the probe rate, when to stop listening, and the size of a scan.

use vstd::prelude::*;

verus! {

/// How long to wait, in nanoseconds, after the `count`-th probe so that
/// probes go out at no more than `rate` per second: the time the probes
/// should have taken, `count / rate` seconds, less the time `elapsed_ns`
/// they did take. No rate (`0`) means no wait.
pub open spec fn pacing_wait(rate: u64, count: u64, elapsed_ns: u64) -> nat {
    if rate == 0 {
        0
    } else {
        let due = (count as nat) * 1_000_000_000 / (rate as nat);
        if elapsed_ns < due {
            (due - elapsed_ns) as nat
        } else {
            0
        }
    }
}

/// The wait before the next probe, in nanoseconds.
pub fn pacing_delay(rate: u64, count: u64, elapsed_ns: u64) -> (r: u128)
    ensures
        r == pacing_wait(rate, count, elapsed_ns),
{
    if rate == 0 {
        return 0;
    }
    let total: u128 = (count as u128) * 1_000_000_000u128;
    let due: u128 = total / (rate as u128);
    assert(due <= total) by (nonlinear_arith)
        requires
            due == total / (rate as u128),
            rate >= 1,
    ;
    if (elapsed_ns as u128) < due {
        due - (elapsed_ns as u128)
    } else {
        0
    }
}

/// Whether the receiver goes on listening: it stops once `cooldown_secs`
/// seconds have passed since the transmitter finished (`since_done_ns`,
/// none while it still sends), and once it has listened for an hour.
pub open spec fn listening(since_done_ns: Option<u64>, cooldown_secs: u64, since_start_ns: u64) -> bool {
    &&& !(since_done_ns matches Some(d) && d >= cooldown_secs * 1_000_000_000)
    &&& since_start_ns <= 3_600_000_000_000
}

/// Whether the receiver goes on listening.
pub fn keep_listening(since_done_ns: Option<u64>, cooldown_secs: u64, since_start_ns: u64) -> (r: bool)
    ensures
        r == listening(since_done_ns, cooldown_secs, since_start_ns),
{
    if let Some(d) = since_done_ns {
        if (d as u128) >= (cooldown_secs as u128) * 1_000_000_000u128 {
            return false;
        }
    }
    (since_start_ns as u128) <= 3_600_000_000_000u128
}

/// The number of probes of a scan of the addresses `lo..=hi` on
/// `port_count` ports.
pub fn probe_count(lo: u32, hi: u32, port_count: usize) -> (r: u64)
    requires
        lo <= hi,
        (hi - lo + 1) * port_count <= u64::MAX,
    ensures
        r == (hi - lo + 1) * port_count,
{
    let hosts: u64 = (hi as u64) - (lo as u64) + 1;
    hosts * (port_count as u64)
}

/// Pacing keeps the rate and no more: after the wait, `count` probes have
/// taken at least `count / rate` seconds, and a wait is only as long as
/// that requires.
pub proof fn lemma_pacing_keeps_rate(rate: u64, count: u64, elapsed_ns: u64)
    requires
        rate > 0,
    ensures
        elapsed_ns + pacing_wait(rate, count, elapsed_ns) >= (count as nat) * 1_000_000_000 / (
        rate as nat),
        pacing_wait(rate, count, elapsed_ns) > 0 ==> elapsed_ns + pacing_wait(rate, count, elapsed_ns)
            == (count as nat) * 1_000_000_000 / (rate as nat),
{
}

} // verus!
