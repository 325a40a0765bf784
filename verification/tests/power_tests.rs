use voting_with_delegation::power::{
    compute_voting_power, decay_milli, effective_base_power, isqrt, ln_milli, quadratic_power,
    reputation_factor_milli,
};
use voting_with_delegation::errors::ErrorCode;

#[test]
fn decay_is_full_at_zero_elapsed() {
    assert_eq!(decay_milli(0), 1000);
    assert_eq!(decay_milli(-5), 1000);
}

#[test]
fn decay_is_zero_after_window() {
    assert_eq!(decay_milli(2592000), 0);
    assert_eq!(decay_milli(2592001), 0);
    assert_eq!(decay_milli(i64::MAX), 0);
}

#[test]
fn decay_midpoint_is_half() {
    assert_eq!(decay_milli(1296000), 500);
}

#[test]
fn decay_just_inside_window_is_one() {
    assert_eq!(decay_milli(2591999), 1);
}

#[test]
fn decay_never_grows_with_elapsed_time() {
    let samples: [i64; 7] = [0, 1, 100, 86400, 1296000, 2591999, 2592000];
    let mut prev: u64 = 1000;
    for t in samples {
        let d = decay_milli(t);
        assert!(d <= prev);
        assert!(d <= 1000);
        prev = d;
    }
}

#[test]
fn reputation_factor_is_clamped() {
    assert_eq!(reputation_factor_milli(0), 500);
    assert_eq!(reputation_factor_milli(49), 500);
    assert_eq!(reputation_factor_milli(50), 500);
    assert_eq!(reputation_factor_milli(100), 1000);
    assert_eq!(reputation_factor_milli(120), 1200);
    assert_eq!(reputation_factor_milli(150), 1500);
    assert_eq!(reputation_factor_milli(151), 1500);
    assert_eq!(reputation_factor_milli(200), 1500);
}

#[test]
fn effective_base_power_scales_and_truncates() {
    assert_eq!(effective_base_power(100, 1000, 1000), 100);
    assert_eq!(effective_base_power(100, 500, 1000), 50);
    assert_eq!(effective_base_power(100, 500, 1010), 50);
    assert_eq!(effective_base_power(0, 1000, 1500), 0);
    assert_eq!(effective_base_power(7, 333, 999), 2);
}

#[test]
fn effective_base_power_saturates() {
    assert_eq!(effective_base_power(u64::MAX, 1000, 1500), u64::MAX);
}

#[test]
fn isqrt_exact_values() {
    assert_eq!(isqrt(0), 0);
    assert_eq!(isqrt(1), 1);
    assert_eq!(isqrt(3), 1);
    assert_eq!(isqrt(4), 2);
    assert_eq!(isqrt(99), 9);
    assert_eq!(isqrt(100), 10);
    assert_eq!(isqrt(u64::MAX), 4294967295);
}

#[test]
fn ln_is_zero_at_one() {
    assert_eq!(ln_milli(1000), 0);
}

#[test]
fn ln_sample_values() {
    assert_eq!(ln_milli(999), -1);
    assert_eq!(ln_milli(500), -687);
    assert_eq!(ln_milli(368), -998);
    assert_eq!(ln_milli(367), -1000);
    assert_eq!(ln_milli(0), -1000);
}

#[test]
fn quadratic_power_full_request_is_square_root() {
    assert_eq!(quadratic_power(100, 100), 10);
}

#[test]
fn quadratic_power_small_ratio_floors_at_one() {
    // capped/effective = 1/4: the log clamp drives the weight to zero,
    // and the floor keeps one unit of influence.
    assert_eq!(quadratic_power(25, 100), 1);
}

#[test]
fn quadratic_power_half_ratio() {
    // sqrt(50) = 7, weight 1000 - 687 = 313: floor(7 * 0.313) = 2.
    assert_eq!(quadratic_power(50, 100), 2);
}

#[test]
fn quadratic_power_never_exceeds_capped_request() {
    let cases: [(u64, u64); 5] = [(1, 1), (2, 7), (100, 100), (50, 100), (1000, 123456)];
    for (c, e0) in cases {
        let e = if e0 < c { c } else { e0 };
        let p = quadratic_power(c, e);
        assert!(p >= 1);
        assert!(p <= c);
    }
}

#[test]
fn calculator_matches_formula_at_full_power() {
    // decay 1, reputation factor 1.0: effective base 100, capped 100,
    // floor(sqrt(100) * (1 + ln(1))) = 10.
    assert_eq!(compute_voting_power(100, 100, 0, 100, 0), Ok(10));
}

#[test]
fn calculator_rejects_zero_request() {
    assert_eq!(compute_voting_power(100, 100, 0, 0, 0), Err(ErrorCode::NoEffectivePower));
}

#[test]
fn calculator_rejects_zero_base() {
    assert_eq!(compute_voting_power(0, 100, 0, 100, 0), Err(ErrorCode::NoEffectivePower));
}

#[test]
fn calculator_rejects_fully_decayed_voter() {
    // Thirty days after the last activity the decay factor is zero.
    assert_eq!(
        compute_voting_power(100, 100, 0, 100, 2592000),
        Err(ErrorCode::NoEffectivePower)
    );
}

#[test]
fn calculator_result_bounded_by_request() {
    for req in [1u64, 2, 5, 50, 100, 1000] {
        match compute_voting_power(100, 100, 0, req, 0) {
            Ok(p) => {
                assert!(p >= 1);
                assert!(p <= req);
            }
            Err(e) => panic!("unexpected rejection: {:?}", e),
        }
    }
}
