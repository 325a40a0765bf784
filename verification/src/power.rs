use vstd::prelude::*;
use vstd::arithmetic::div_mod::{lemma_div_is_ordered, lemma_div_pos_is_pos, lemma_div_multiples_vanish};
use vstd::arithmetic::mul::{lemma_mul_inequality, lemma_mul_upper_bound};
use crate::errors::ErrorCode;

verus! {

// The voting-power calculator: a pure, deterministic map from
// (voter state, requested power, timestamp) to effective cast power.
// It participates in consensus-critical state, so every step is carried
// out in scaled-integer arithmetic (thousandths), never floating point,
// and is reproducible bit-for-bit.

/// Thirty days in seconds: the window over which influence decays.
pub const DECAY_WINDOW: i64 = 2592000;

/// The fixed-point scale: factors are carried in thousandths.
pub const SCALE: u64 = 1000;

/// Linear decay of influence, in thousandths, over the thirty-day window
/// since the voter's last activity: full (1000) at zero elapsed time,
/// zero once the whole window has passed. A non-positive elapsed time
/// counts as no elapsed time.
pub open spec fn spec_decay_milli(time_since: int) -> int {
    if time_since <= 0 {
        1000
    } else if time_since >= 2592000 {
        0
    } else {
        1000 - time_since * 1000 / 2592000
    }
}

/// The decay factor always lies in [0, 1000] thousandths.
pub proof fn lemma_decay_bounds(time_since: int)
    ensures
        0 <= spec_decay_milli(time_since) <= 1000,
{
    if 0 < time_since < 2592000 {
        lemma_mul_inequality(time_since, 2591999, 1000);
        lemma_div_is_ordered(time_since * 1000, 2591999000, 2592000);
        assert(2591999000int / 2592000 == 999);
        lemma_div_pos_is_pos(time_since * 1000, 2592000);
    }
}

/// The decay factor never grows as the elapsed time grows.
pub proof fn lemma_decay_monotone(t1: int, t2: int)
    requires
        t1 <= t2,
    ensures
        spec_decay_milli(t2) <= spec_decay_milli(t1),
{
    lemma_decay_bounds(t1);
    lemma_decay_bounds(t2);
    if 0 < t1 && t2 < 2592000 {
        lemma_mul_inequality(t1, t2, 1000);
        lemma_div_is_ordered(t1 * 1000, t2 * 1000, 2592000);
    }
}

/// Computes the decay factor in thousandths for an elapsed time.
pub fn decay_milli(time_since: i64) -> (r: u64)
    ensures
        r as int == spec_decay_milli(time_since as int),
{
    if time_since <= 0 {
        SCALE
    } else if time_since >= DECAY_WINDOW {
        0
    } else {
        let scaled: u64 = (time_since as u64) * SCALE;
        proof {
            lemma_div_is_ordered(scaled as int, 2591999000, 2592000);
            assert(2591999000int / 2592000 == 999);
            lemma_div_pos_is_pos(scaled as int, 2592000);
        }
        1000 - scaled / 2592000
    }
}

/// The reputation multiplier in thousandths: reputation is carried in
/// hundredths of the neutral score 100, so the factor is reputation / 100
/// clamped to [0.5, 1.5], that is [500, 1500] thousandths.
pub open spec fn spec_reputation_factor_milli(rep: int) -> int {
    if rep * 10 < 500 {
        500
    } else if rep * 10 > 1500 {
        1500
    } else {
        rep * 10
    }
}

/// Computes the reputation multiplier in thousandths.
pub fn reputation_factor_milli(rep: u8) -> (r: u64)
    ensures
        r as int == spec_reputation_factor_milli(rep as int),
        500 <= r <= 1500,
{
    if rep < 50 {
        500
    } else if rep > 150 {
        1500
    } else {
        (rep as u64) * 10
    }
}

/// The effective base power before capping: base power scaled by the decay
/// and reputation factors (both in thousandths), truncated to an integer
/// and saturated at the largest representable value.
pub open spec fn spec_effective_base_power(base: int, decay_milli: int, rep_milli: int) -> int {
    let raw: int = base * decay_milli * rep_milli / 1000000;
    if raw > u64::MAX as int {
        u64::MAX as int
    } else {
        raw
    }
}

/// Computes the effective base power from the two scaled factors.
pub fn effective_base_power(base: u64, decay: u64, rep: u64) -> (r: u64)
    requires
        decay <= 1000,
        500 <= rep <= 1500,
    ensures
        r as int == spec_effective_base_power(base as int, decay as int, rep as int),
{
    proof {
        lemma_mul_upper_bound(base as int, u64::MAX as int, decay as int, 1000);
        lemma_mul_upper_bound(
            (base as int) * (decay as int),
            (u64::MAX as int) * 1000,
            rep as int,
            1500,
        );
        assert((base as int) * (decay as int) >= 0) by (nonlinear_arith)
            requires base as int >= 0 && decay as int >= 0;
        assert((base as int) * (decay as int) * (rep as int) >= 0) by (nonlinear_arith)
            requires (base as int) * (decay as int) >= 0 && rep as int >= 0;
        lemma_div_pos_is_pos((base as int) * (decay as int) * (rep as int), 1000000);
    }
    let prod: u128 = (base as u128) * (decay as u128) * (rep as u128);
    let scaled: u128 = prod / 1000000;
    if scaled > 0xffff_ffff_ffff_ffffu128 {
        u64::MAX
    } else {
        scaled as u64
    }
}

/// The integer square root: the largest `r` with `r * r <= n`.
pub open spec fn spec_isqrt(n: nat) -> nat
    decreases n,
{
    if n == 0 {
        0
    } else {
        let r: nat = spec_isqrt((n - 1) as nat);
        if (r + 1) * (r + 1) <= n {
            r + 1
        } else {
            r
        }
    }
}

/// The integer square root satisfies its defining bracket.
pub proof fn lemma_isqrt_props(n: nat)
    ensures
        spec_isqrt(n) * spec_isqrt(n) <= n,
        n < (spec_isqrt(n) + 1) * (spec_isqrt(n) + 1),
    decreases n,
{
    if n > 0 {
        lemma_isqrt_props((n - 1) as nat);
        let r: nat = spec_isqrt((n - 1) as nat);
        if (r + 1) * (r + 1) <= n {
            assert(spec_isqrt(n) == r + 1);
            assert(spec_isqrt(n) * spec_isqrt(n) <= n) by (nonlinear_arith)
                requires
                    spec_isqrt(n) == r + 1,
                    (r + 1) * (r + 1) <= n,
            ;
            assert(n < (spec_isqrt(n) + 1) * (spec_isqrt(n) + 1)) by (nonlinear_arith)
                requires
                    spec_isqrt(n) == r + 1,
                    n - 1 < (r + 1) * (r + 1),
                    r >= 0,
                    n >= 1,
            ;
        } else {
            assert(spec_isqrt(n) == r);
            assert(r * r <= n - 1);
            assert(spec_isqrt(n) * spec_isqrt(n) <= n) by (nonlinear_arith)
                requires
                    spec_isqrt(n) == r,
                    r * r <= n - 1,
                    n >= 1,
            ;
            assert(n < (spec_isqrt(n) + 1) * (spec_isqrt(n) + 1)) by (nonlinear_arith)
                requires
                    spec_isqrt(n) == r,
                    !((r + 1) * (r + 1) <= n),
            ;
        }
    } else {
        assert(spec_isqrt(n) == 0);
        assert(n < (spec_isqrt(n) + 1) * (spec_isqrt(n) + 1)) by (nonlinear_arith)
            requires
                spec_isqrt(n) == 0,
                n == 0,
        ;
    }
}

/// Two values that both satisfy the square-root bracket for `n` are equal.
pub proof fn lemma_isqrt_unique(a: nat, b: nat, n: nat)
    requires
        a * a <= n < (a + 1) * (a + 1),
        b * b <= n < (b + 1) * (b + 1),
    ensures
        a == b,
{
    if a < b {
        assert((a + 1) * (a + 1) <= b * b) by (nonlinear_arith)
            requires a >= 0 && b >= 0 && a < b;
    }
    if b < a {
        assert((b + 1) * (b + 1) <= a * a) by (nonlinear_arith)
            requires a >= 0 && b >= 0 && b < a;
    }
}

/// Computes the integer square root by bisection.
pub fn isqrt(n: u64) -> (r: u64)
    ensures
        r as nat == spec_isqrt(n as nat),
        (r as int) * (r as int) <= n as int,
        (n as int) < (r as int + 1) * (r as int + 1),
        r <= 4294967295,
{
    let mut lo: u64 = 0;
    let mut hi: u64 = 4294967296;
    proof {
        assert((4294967296int) * 4294967296 > u64::MAX as int);
    }
    while lo + 1 < hi
        invariant
            lo < hi <= 4294967296,
            (lo as int) * (lo as int) <= n as int,
            (n as int) < (hi as int) * (hi as int),
        decreases hi - lo,
    {
        let mid: u64 = lo + (hi - lo) / 2;
        proof {
            assert(mid as int * (mid as int) <= 4294967295int * 4294967295) by (nonlinear_arith)
                requires 0 <= mid as int <= 4294967295;
        }
        if mid * mid <= n {
            lo = mid;
        } else {
            hi = mid;
        }
    }
    proof {
        lemma_isqrt_props(n as nat);
        lemma_isqrt_unique(lo as nat, spec_isqrt(n as nat), n as nat);
    }
    lo
}

/// One branch of the scaled natural-log approximation: the alternating
/// series of ln(1 - y) truncated after five terms, evaluated at
/// y = (1000 - m) / 1000 and carried in thousandths. Meaningful for
/// `m` in [500, 1000], where the truncation error stays small.
pub open spec fn spec_ln_series_milli(m: int) -> int {
    let y: int = 1000 - m;
    -(y + y * y / 2000 + y * y * y / 3000000 + y * y * y * y / 4000000000
        + y * y * y * y * y / 5000000000000)
}

/// On [500, 1000] the series stays within [-687, 0].
pub proof fn lemma_ln_series_bounds_high(m: int)
    requires
        500 <= m <= 1000,
    ensures
        -687 <= spec_ln_series_milli(m) <= 0,
{
    lemma_ln_series_bounds(m, 500, 125, 41, 15, 6);
}

/// On [736, 1000] the series stays within [-307, 0].
pub proof fn lemma_ln_series_bounds_low(m: int)
    requires
        736 <= m <= 1000,
    ensures
        -307 <= spec_ln_series_milli(m) <= 0,
{
    lemma_ln_series_bounds(m, 264, 34, 6, 1, 0);
}

proof fn lemma_ln_series_bounds(m: int, yb: int, b2: int, b3: int, b4: int, b5: int)
    requires
        1000 - yb <= m <= 1000,
        0 <= yb <= 500,
        yb * yb / 2000 == b2,
        yb * yb * yb / 3000000 == b3,
        yb * yb * yb * yb / 4000000000 == b4,
        yb * yb * yb * yb * yb / 5000000000000 == b5,
    ensures
        -(yb + b2 + b3 + b4 + b5) <= spec_ln_series_milli(m) <= 0,
{
    let y: int = 1000 - m;
    assert(0 <= y * y <= yb * yb && 0 <= y * y * y <= yb * yb * yb && 0 <= y * y * y * y <= yb
        * yb * yb * yb && 0 <= y * y * y * y * y <= yb * yb * yb * yb * yb) by (nonlinear_arith)
        requires 0 <= y <= yb;
    lemma_div_is_ordered(y * y, yb * yb, 2000);
    lemma_div_is_ordered(y * y * y, yb * yb * yb, 3000000);
    lemma_div_is_ordered(y * y * y * y, yb * yb * yb * yb, 4000000000);
    lemma_div_is_ordered(y * y * y * y * y, yb * yb * yb * yb * yb, 5000000000000);
    lemma_div_pos_is_pos(y * y, 2000);
    lemma_div_pos_is_pos(y * y * y, 3000000);
    lemma_div_pos_is_pos(y * y * y * y, 4000000000);
    lemma_div_pos_is_pos(y * y * y * y * y, 5000000000000);
}

/// The scaled natural log of `ratio / 1000` for a ratio in [0, 1000],
/// in thousandths, clamped below at -1000 (that is, at ratios below
/// 1/e the result is pinned to the clamp, which is all the quadratic
/// weight ever needs). Ratios in [368, 500) are folded into the series'
/// domain by ln(x) = ln(2 x) - ln 2, with ln 2 as 693 thousandths.
pub open spec fn spec_ln_milli(ratio: int) -> int {
    if ratio >= 1000 {
        0
    } else if ratio < 368 {
        -1000
    } else if ratio >= 500 {
        spec_ln_series_milli(ratio)
    } else {
        spec_ln_series_milli(2 * ratio) - 693
    }
}

/// The scaled natural log lies in [-1000, 0] on its whole domain.
pub proof fn lemma_ln_bounds(ratio: int)
    requires
        0 <= ratio <= 1000,
    ensures
        -1000 <= spec_ln_milli(ratio) <= 0,
{
    if ratio < 1000 && 368 <= ratio {
        if ratio >= 500 {
            lemma_ln_series_bounds_high(ratio);
        } else {
            lemma_ln_series_bounds_low(2 * ratio);
        }
    }
}

/// Computes the truncated log series for `m` in [500, 1000].
fn ln_series_milli(m: u64) -> (r: i64)
    requires
        500 <= m <= 1000,
    ensures
        r as int == spec_ln_series_milli(m as int),
{
    let y: u64 = 1000 - m;
    proof {
        assert(y as int * (y as int) <= 250000 && y as int * (y as int) * (y as int) <= 125000000
            && y as int * (y as int) * (y as int) * (y as int) <= 62500000000
            && y as int * (y as int) * (y as int) * (y as int) * (y as int) <= 31250000000000)
            by (nonlinear_arith)
            requires 0 <= y as int <= 500;
        lemma_div_pos_is_pos((y as int) * (y as int), 2000);
        lemma_div_pos_is_pos((y as int) * (y as int) * (y as int), 3000000);
        lemma_div_pos_is_pos((y as int) * (y as int) * (y as int) * (y as int), 4000000000);
        lemma_div_pos_is_pos(
            (y as int) * (y as int) * (y as int) * (y as int) * (y as int),
            5000000000000,
        );
    }
    let y2: u64 = y * y;
    let y3: u64 = y2 * y;
    let y4: u64 = y3 * y;
    let y5: u64 = y4 * y;
    let sum: u64 = y + y2 / 2000 + y3 / 3000000 + y4 / 4000000000 + y5 / 5000000000000;
    -(sum as i64)
}

/// Computes the scaled natural log for a ratio in [0, 1000].
pub fn ln_milli(ratio: u64) -> (r: i64)
    requires
        ratio <= 1000,
    ensures
        r as int == spec_ln_milli(ratio as int),
        -1000 <= r <= 0,
{
    proof {
        lemma_ln_bounds(ratio as int);
    }
    if ratio >= 1000 {
        0
    } else if ratio < 368 {
        -1000
    } else if ratio >= 500 {
        ln_series_milli(ratio)
    } else {
        ln_series_milli(2 * ratio) - 693
    }
}

/// The quadratic transform of a capped request against the effective base:
/// sqrt(capped) scaled by (1 + ln(capped / effective)), truncated, and
/// floored at 1 so that an accepted vote always carries some influence.
/// Meaningful for `1 <= capped <= effective`.
pub open spec fn spec_quadratic_power(capped: int, effective: int) -> int {
    let ratio: int = capped * 1000 / effective;
    let w: int = 1000 + spec_ln_milli(ratio);
    let q: int = (spec_isqrt(capped as nat) as int) * w / 1000;
    if q < 1 {
        1
    } else {
        q
    }
}

/// The quadratic power of an accepted vote is at least 1 and never
/// exceeds the capped request.
pub proof fn lemma_quadratic_power_bounds(capped: int, effective: int)
    requires
        1 <= capped <= effective,
    ensures
        1 <= spec_quadratic_power(capped, effective) <= capped,
{
    let ratio: int = capped * 1000 / effective;
    lemma_mul_inequality(capped, effective, 1000);
    lemma_div_is_ordered(capped * 1000, effective * 1000, effective);
    lemma_div_multiples_vanish(1000, effective);
    assert(effective * 1000 == 1000 * effective) by (nonlinear_arith);
    lemma_div_pos_is_pos(capped * 1000, effective);
    assert(capped * 1000 >= 0) by (nonlinear_arith)
        requires capped >= 1;
    lemma_ln_bounds(ratio);
    let w: int = 1000 + spec_ln_milli(ratio);
    let s: int = spec_isqrt(capped as nat) as int;
    lemma_isqrt_props(capped as nat);
    assert(s <= capped) by (nonlinear_arith)
        requires s >= 0 && capped >= 1 && s * s <= capped;
    lemma_mul_inequality(w, 1000, s);
    assert(s * w == w * s && s * 1000 == 1000 * s) by (nonlinear_arith);
    lemma_div_is_ordered(s * w, s * 1000, 1000);
    lemma_div_multiples_vanish(s, 1000);
    lemma_div_pos_is_pos(s * w, 1000);
    assert(s * w >= 0) by (nonlinear_arith)
        requires s >= 0 && w >= 0;
}

/// Computes the quadratic power for `1 <= capped <= effective`.
pub fn quadratic_power(capped: u64, effective: u64) -> (r: u64)
    requires
        1 <= capped <= effective,
    ensures
        r as int == spec_quadratic_power(capped as int, effective as int),
        1 <= r <= capped,
{
    proof {
        lemma_quadratic_power_bounds(capped as int, effective as int);
        lemma_mul_inequality(capped as int, effective as int, 1000);
        lemma_div_is_ordered((capped as int) * 1000, (effective as int) * 1000, effective as int);
        lemma_div_multiples_vanish(1000, effective as int);
        assert((effective as int) * 1000 == 1000 * (effective as int)) by (nonlinear_arith);
        lemma_div_pos_is_pos((capped as int) * 1000, effective as int);
        assert((capped as int) * 1000 >= 0) by (nonlinear_arith)
            requires capped as int >= 1;
    }
    let ratio: u64 = ((capped as u128) * 1000 / (effective as u128)) as u64;
    let lnv: i64 = ln_milli(ratio);
    let w: u64 = (1000 + lnv) as u64;
    let s: u64 = isqrt(capped);
    proof {
        lemma_mul_upper_bound(s as int, 4294967295, w as int, 1000);
    }
    let q: u64 = s * w / 1000;
    if q < 1 {
        1
    } else {
        q
    }
}

/// The elapsed time since the voter's last vote, floored at zero.
pub open spec fn spec_time_since(last_vote_time: int, now: int) -> int {
    if now >= last_vote_time {
        now - last_vote_time
    } else {
        0
    }
}

/// The effective base power of a voter's state at a given time.
pub open spec fn spec_effective_base(base: int, rep: int, last_vote_time: int, now: int) -> int {
    spec_effective_base_power(
        base,
        spec_decay_milli(spec_time_since(last_vote_time, now)),
        spec_reputation_factor_milli(rep),
    )
}

/// The requested power capped by the effective base power.
pub open spec fn spec_capped_power(
    base: int,
    rep: int,
    last_vote_time: int,
    now: int,
    requested: int,
) -> int {
    let e: int = spec_effective_base(base, rep, last_vote_time, now);
    if requested <= e {
        requested
    } else {
        e
    }
}

/// The full quadratic-variant calculator: decay, reputation weighting,
/// capping and the quadratic transform. A request whose capped power is
/// zero carries no influence and is rejected, so that the division and
/// logarithm are never taken at zero.
pub fn compute_voting_power(
    base_power: u64,
    reputation: u8,
    last_vote_time: i64,
    requested_power: u64,
    now: i64,
) -> (r: Result<u64, ErrorCode>)
    requires
        last_vote_time >= 0,
    ensures
        ({
            let c = spec_capped_power(
                base_power as int,
                reputation as int,
                last_vote_time as int,
                now as int,
                requested_power as int,
            );
            let e = spec_effective_base(
                base_power as int,
                reputation as int,
                last_vote_time as int,
                now as int,
            );
            match r {
                Ok(p) => c >= 1 && p as int == spec_quadratic_power(c, e) && 1 <= p
                    <= requested_power,
                Err(code) => code == ErrorCode::NoEffectivePower && c == 0,
            }
        }),
{
    let ts: i64 = if now >= last_vote_time {
        now - last_vote_time
    } else {
        0
    };
    let decay: u64 = decay_milli(ts);
    proof {
        lemma_decay_bounds(ts as int);
    }
    let rep: u64 = reputation_factor_milli(reputation);
    let ebp: u64 = effective_base_power(base_power, decay, rep);
    let capped: u64 = if requested_power <= ebp {
        requested_power
    } else {
        ebp
    };
    if capped == 0 {
        Err(ErrorCode::NoEffectivePower)
    } else {
        Ok(quadratic_power(capped, ebp))
    }
}

} // verus!
