//! Reconnect backoff policy for a streaming connection: exponential delay,
//! doubling per attempt, capped at a configured maximum, with +/-10% random
//! jitter to spread simultaneous reconnects across symbols.
use vstd::prelude::*;

verus! {

use vstd::math::min;

/// 2 to the power `e`, as a mathematical natural number.
pub open spec fn two_pow(e: nat) -> nat
    decreases e,
{
    if e == 0 {
        1nat
    } else {
        2 * two_pow((e - 1) as nat)
    }
}

/// The raw delay in milliseconds before connect attempt `attempt` (the first
/// attempt is attempt 1 and waits the base delay after its failure): the base
/// delay doubled once per prior attempt, capped at `cap`.
pub open spec fn spec_raw_delay(base: u64, cap: u64, attempt: u32) -> int
    recommends
        1 <= attempt,
{
    min(base as int * two_pow((attempt - 1) as nat) as int, cap as int)
}

proof fn lemma_two_pow_non_decreasing(e1: nat, e2: nat)
    requires
        e1 <= e2,
    ensures
        two_pow(e1) <= two_pow(e2),
    decreases e2,
{
    if e1 < e2 {
        lemma_two_pow_non_decreasing(e1, (e2 - 1) as nat);
        assert(two_pow(e2) == 2 * two_pow((e2 - 1) as nat));
    }
}

/// The raw backoff delay, computed without overflow: doubling saturates at the
/// cap, so arbitrarily large attempt numbers are safe.
pub fn raw_delay(base: u64, cap: u64, attempt: u32) -> (d: u64)
    requires
        1 <= attempt,
    ensures
        d == spec_raw_delay(base, cap, attempt),
{
    let mut d: u64 = if base <= cap {
        base
    } else {
        cap
    };
    let mut n: u32 = 1;
    proof {
        assert(two_pow(0) == 1);
        let p0 = two_pow(0) as int;
        assert(p0 == 1);
        assert(spec_raw_delay(base, cap, 1) == min(base as int * p0, cap as int));
        assert(base as int * 1 == base as int);
    }
    while n < attempt
        invariant
            1 <= n <= attempt,
            d == spec_raw_delay(base, cap, n),
        decreases attempt - n,
    {
        let ghost p = two_pow((n - 1) as nat) as int;
        proof {
            assert(two_pow(n as nat) == 2 * two_pow((n - 1) as nat));
            assert(base as int * (2 * p) == 2 * (base as int * p)) by (nonlinear_arith);
            assert(base as int * p >= 0) by (nonlinear_arith)
                requires
                    base >= 0,
                    p >= 0,
            ;
        }
        if d > cap - d {
            d = cap;
        } else {
            d = 2 * d;
        }
        n = n + 1;
    }
    d
}

/// Law: the raw backoff delay sequence is non-decreasing in the attempt number.
pub proof fn lemma_backoff_non_decreasing(base: u64, cap: u64, a1: u32, a2: u32)
    requires
        1 <= a1 <= a2,
    ensures
        spec_raw_delay(base, cap, a1) <= spec_raw_delay(base, cap, a2),
{
    lemma_two_pow_non_decreasing((a1 - 1) as nat, (a2 - 1) as nat);
    let p1 = two_pow((a1 - 1) as nat) as int;
    let p2 = two_pow((a2 - 1) as nat) as int;
    assert(base as int * p1 <= base as int * p2) by (nonlinear_arith)
        requires
            0 <= p1 <= p2,
            0 <= base,
    ;
}

/// Law: the raw backoff delay never exceeds the configured maximum delay.
pub proof fn lemma_backoff_bounded(base: u64, cap: u64, attempt: u32)
    requires
        1 <= attempt,
    ensures
        spec_raw_delay(base, cap, attempt) <= cap,
{
}

/// Applies +/-10% jitter to a raw delay, steered by an arbitrary random word:
/// the result always lies between 90% and 110% of the raw delay.
pub fn jittered_delay(raw: u64, r: u64) -> (d: u64)
    requires
        raw + raw / 10 <= u64::MAX,
    ensures
        raw - raw / 10 <= d <= raw + raw / 10,
        9 * raw <= 10 * d <= 11 * raw,
{
    let j = raw / 10;
    let u = r % (2 * j + 1);
    raw - j + u
}

/// Relies on rand::random: an arbitrary machine word; nothing is assumed of
/// its value, so every caller is verified for every outcome.
#[verifier::external_body]
fn random_u64() -> u64 {
    rand::random::<u64>()
}

/// The full jittered delay in milliseconds to sleep before connect attempt
/// `attempt`: within +/-10% of the raw exponential delay, whatever the drawn
/// jitter.
pub fn backoff_delay_ms(base: u64, cap: u64, attempt: u32) -> (d: u64)
    requires
        1 <= attempt,
        cap + cap / 10 <= u64::MAX,
    ensures
        9 * spec_raw_delay(base, cap, attempt) <= 10 * d,
        10 * d <= 11 * spec_raw_delay(base, cap, attempt),
{
    let raw = raw_delay(base, cap, attempt);
    proof {
        lemma_backoff_bounded(base, cap, attempt);
    }
    jittered_delay(raw, random_u64())
}

/// Law: after a transport failure on the first connect attempt, the raw delay
/// before the second attempt is exactly twice the base delay (when that does
/// not exceed the cap), so the jittered sleep lies in [1.8 * base, 2.2 * base].
pub proof fn lemma_second_attempt_window(base: u64, cap: u64)
    requires
        2 * base <= cap,
    ensures
        spec_raw_delay(base, cap, 2) == 2 * base,
{
    assert(two_pow(0) == 1);
    assert(two_pow(1) == 2 * two_pow(0));
    let p = two_pow(1) as int;
    assert(p == 2);
    assert(spec_raw_delay(base, cap, 2) == min(base as int * p, cap as int));
    assert(min(base as int * 2, cap as int) == 2 * base);
}

} // verus!
