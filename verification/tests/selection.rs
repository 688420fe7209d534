use archmage::SimdToken;
use simdispatch::internals::{apply_override, detect, resolve_with};
use simdispatch::{backend, Backend, Selection};

/// Whether the tests run on x86_64: archmage reports its x86 baseline token as
/// impossible (`Some(false)`) on every other architecture.
fn on_x86_64() -> bool {
    archmage::X64V1Token::compiled_with() != Some(false)
}

/// Whether the tests run on aarch64, by the same report for the NEON token.
fn on_aarch64() -> bool {
    archmage::NeonToken::compiled_with() != Some(false)
}

/// Simulated x86 host: every x86 tier summons.
fn x86_host() -> impl Fn(Backend) -> bool {
    |b: Backend| {
        matches!(
            b,
            Backend::V3GfniCrypto | Backend::V3 | Backend::V2 | Backend::V1
        )
    }
}

/// Simulated strongest host: every tier summons.
fn full_host() -> impl Fn(Backend) -> bool {
    |_b: Backend| true
}

/// Simulated x86 floor: only SSE2 and the portable fallback summon.
fn v1_only_host() -> impl Fn(Backend) -> bool {
    |b: Backend| matches!(b, Backend::V1 | Backend::Scalar)
}

fn resolve_supported(supported: &'static [Backend]) -> Backend {
    Selection::new("SIMD_BACKEND").supports(supported).resolve(None)
}

fn resolve_full_ladder(value: Option<&str>) -> Backend {
    Selection::new("SIMD_BACKEND")
        .supports(Backend::ALL)
        .resolve(value)
}

#[test]
fn detect_picks_strongest_supported_summoning() {
    assert_eq!(detect(&[Backend::V2, Backend::V1], x86_host()), Backend::V2);
    assert_eq!(
        detect(&[Backend::V1, Backend::V2, Backend::V3], x86_host()),
        Backend::V3
    );
    assert_eq!(detect(Backend::ALL, full_host()), Backend::V3GfniCrypto);
}

#[test]
fn detect_falls_back_to_scalar_when_nothing_supported_summons() {
    assert_eq!(detect(&[], x86_host()), Backend::Scalar);
    assert_eq!(
        detect(&[Backend::NeonAes, Backend::Neon], x86_host()),
        Backend::Scalar
    );
    assert_eq!(detect(&[Backend::Scalar], x86_host()), Backend::Scalar);
}

#[test]
fn narrowing_omits_host_best_resolves_to_strongest_supported() {
    assert_eq!(
        detect(&[Backend::V3, Backend::V2, Backend::V1], x86_host()),
        Backend::V3
    );
    assert_eq!(
        detect(&[Backend::V1, Backend::Neon], x86_host()),
        Backend::V1
    );
    let v3_host = |b: Backend| matches!(b, Backend::V3 | Backend::V2 | Backend::V1);
    assert_eq!(detect(Backend::ALL, v3_host), Backend::V3);
}

#[test]
fn scalar_override_forces_scalar() {
    let detected = detect(Backend::ALL, full_host());
    assert_eq!(detected, Backend::V3GfniCrypto);
    assert_eq!(
        apply_override(Backend::ALL, detected, Some(Backend::Scalar), full_host()),
        Backend::Scalar
    );
}

#[test]
fn override_stronger_than_detected_is_ignored() {
    const SET: &[Backend] = &[Backend::V3, Backend::V2, Backend::Scalar];
    assert_eq!(
        apply_override(SET, Backend::V2, Some(Backend::V3), |_| true),
        Backend::V2
    );
    assert_eq!(
        apply_override(SET, Backend::Scalar, Some(Backend::V3), |_| true),
        Backend::Scalar
    );
}

#[test]
fn override_within_family_downgrades() {
    const SET: &[Backend] = &[
        Backend::V3GfniCrypto,
        Backend::V3,
        Backend::V2,
        Backend::V1,
        Backend::Scalar,
    ];
    let detected = Backend::V3GfniCrypto;
    assert_eq!(
        apply_override(SET, detected, Some(Backend::V2), full_host()),
        Backend::V2
    );
    assert_eq!(
        apply_override(SET, detected, Some(Backend::Scalar), full_host()),
        Backend::Scalar
    );
    assert_eq!(
        apply_override(SET, detected, Some(Backend::V3GfniCrypto), full_host()),
        Backend::V3GfniCrypto
    );
}

#[test]
fn cross_family_override_is_refused() {
    const SET: &[Backend] = &[
        Backend::V3,
        Backend::V2,
        Backend::V1,
        Backend::NeonAes,
        Backend::Neon,
        Backend::Scalar,
    ];
    let detected = detect(SET, x86_host());
    assert_eq!(detected, Backend::V3);
    assert_eq!(
        apply_override(SET, detected, Some(Backend::Neon), x86_host()),
        Backend::V3
    );
    assert_eq!(
        apply_override(SET, detected, Some(Backend::NeonAes), x86_host()),
        Backend::V3
    );
}

#[test]
fn unavailable_within_family_request_is_refused() {
    const SET: &[Backend] = &[Backend::V3, Backend::V2, Backend::V1, Backend::Scalar];
    let detected = detect(SET, v1_only_host());
    assert_eq!(detected, Backend::V1);
    assert_eq!(
        apply_override(SET, detected, Some(Backend::V2), v1_only_host()),
        Backend::V1
    );
    assert_eq!(
        apply_override(SET, detected, Some(Backend::Scalar), v1_only_host()),
        Backend::Scalar
    );
}

#[test]
fn override_not_in_supported_is_ignored() {
    const SET: &[Backend] = &[Backend::V3, Backend::V1, Backend::Scalar];
    assert_eq!(
        apply_override(SET, Backend::V3, Some(Backend::V2), |_| true),
        Backend::V3
    );
}

#[test]
fn missing_or_unknown_override_leaves_detected() {
    const SET: &[Backend] = &[Backend::V3, Backend::Scalar];
    assert_eq!(
        apply_override(SET, Backend::V3, None, |_| true),
        Backend::V3
    );
    assert_eq!(Backend::from_name("turbo"), None);
}

#[test]
fn x86_detection_floor_is_v1() {
    if on_x86_64() {
        let detected = detect(Backend::ALL, Backend::probes_on_host);
        assert!(
            matches!(
                detected,
                Backend::V3GfniCrypto | Backend::V3 | Backend::V2 | Backend::V1
            ),
            "detected {detected:?} on x86_64"
        );
    }
}

#[test]
fn aarch64_detection_floor_is_neon() {
    if on_aarch64() {
        let detected = detect(Backend::ALL, Backend::probes_on_host);
        assert!(
            matches!(detected, Backend::NeonAes | Backend::Neon),
            "detected {detected:?} on aarch64"
        );
    }
}

#[test]
fn supported_membership_uses_equality_not_strength() {
    const SET: &[Backend] = &[Backend::V3GfniCrypto, Backend::Scalar];
    let detected = Backend::V3GfniCrypto;
    assert_eq!(
        apply_override(SET, detected, Some(Backend::V2), |b| b == Backend::V2),
        Backend::V3GfniCrypto
    );
}

#[test]
fn backend_reports_a_member_of_the_ladder() {
    let backend = backend(None);
    assert!(
        Backend::ALL.contains(&backend),
        "backend() returned {backend:?}, not in the ladder"
    );
}

#[test]
fn x86_full_ladder_floor_is_v1_without_a_scalar_override() {
    assert_eq!(backend(Some("scalar")), Backend::Scalar);
    if on_x86_64() {
        let backend = backend(None);
        assert!(
            matches!(
                backend,
                Backend::V3GfniCrypto | Backend::V3 | Backend::V2 | Backend::V1
            ),
            "full ladder resolved to {backend:?} on x86_64"
        );
    }
}

#[test]
fn aarch64_full_ladder_floor_is_neon_without_a_scalar_override() {
    assert_eq!(backend(Some("scalar")), Backend::Scalar);
    if on_aarch64() {
        let backend = backend(None);
        assert!(
            matches!(backend, Backend::NeonAes | Backend::Neon),
            "full ladder resolved to {backend:?} on aarch64"
        );
    }
}

#[test]
fn simd_backend_override_is_downgrade_only() {
    let baseline = resolve_full_ladder(None);
    assert_eq!(resolve_full_ladder(Some("not_a_backend")), baseline);
    assert_eq!(resolve_full_ladder(Some("scalar")), Backend::Scalar);
    // V1 always summons on x86_64 and is the weakest x86 tier.
    if on_x86_64() {
        assert_eq!(resolve_full_ladder(Some("v1")), Backend::V1);
    }
}

#[test]
fn full_ladder_resolves_to_a_member() {
    let backend = resolve_full_ladder(None);
    assert!(Backend::ALL.contains(&backend));
}

#[test]
fn empty_supported_set_resolves_to_scalar() {
    assert_eq!(resolve_supported(&[]), Backend::Scalar);
}

#[test]
fn scalar_only_set_resolves_to_scalar() {
    assert_eq!(resolve_supported(&[Backend::Scalar]), Backend::Scalar);
}

#[test]
fn subset_result_is_supported_or_scalar() {
    let subsets: &[&'static [Backend]] = &[
        &[Backend::V2, Backend::V1],
        &[Backend::V3GfniCrypto, Backend::V3],
        &[Backend::NeonAes, Backend::Neon],
        &[Backend::V2, Backend::Neon, Backend::Scalar],
        &[Backend::V3, Backend::Scalar],
    ];
    for &set in subsets {
        let resolved = resolve_supported(set);
        assert!(
            set.contains(&resolved) || resolved == Backend::Scalar,
            "resolved {resolved:?} for supported {set:?}"
        );
    }
}

#[test]
fn same_supported_set_agrees_across_resolutions() {
    let set: &'static [Backend] = &[Backend::V3, Backend::V2, Backend::V1, Backend::Scalar];
    let first = resolve_supported(set);
    let second = resolve_supported(set);
    assert_eq!(first, second);
}

#[test]
fn internals_resolve_with_is_stable_across_calls() {
    let on_host = |b: Backend| matches!(b, Backend::V3GfniCrypto | Backend::V3 | Backend::V2);
    let set: &[Backend] = &[Backend::V3, Backend::V2, Backend::V1, Backend::Scalar];
    let a = resolve_with(set, on_host, None);
    let b = resolve_with(set, on_host, None);
    assert_eq!(a, b);
    assert_eq!(a, Backend::V3);
}

#[test]
fn detect_ignores_the_order_of_the_supported_set() {
    let forward: &[Backend] = &[Backend::V1, Backend::V2, Backend::V3, Backend::Neon];
    let backward: &[Backend] = &[Backend::Neon, Backend::V3, Backend::V2, Backend::V1];
    assert_eq!(detect(forward, x86_host()), detect(backward, x86_host()));
    assert_eq!(detect(forward, v1_only_host()), Backend::V1);
    assert_eq!(detect(backward, v1_only_host()), Backend::V1);
}

#[test]
fn resolve_with_honours_a_summoning_supported_downgrade() {
    const SET: &[Backend] = &[Backend::V3, Backend::V2, Backend::V1, Backend::Scalar];
    assert_eq!(resolve_with(SET, x86_host(), Some(Backend::V2)), Backend::V2);
    assert_eq!(resolve_with(SET, x86_host(), Some(Backend::Neon)), Backend::V3);
    assert_eq!(resolve_with(SET, v1_only_host(), Some(Backend::V3)), Backend::V1);
    assert_eq!(resolve_with(SET, v1_only_host(), Some(Backend::Scalar)), Backend::Scalar);
    // A probe that does not accept Scalar refuses even the Scalar request.
    assert_eq!(resolve_with(SET, x86_host(), Some(Backend::Scalar)), Backend::V3);
    assert_eq!(resolve_with(&[], full_host(), Some(Backend::V3)), Backend::Scalar);
}

#[test]
fn override_value_is_trimmed_before_parsing() {
    // V1 always summons on x86_64, so a trimmed "v1" is an honoured downgrade.
    if on_x86_64() {
        assert_eq!(resolve_full_ladder(Some("  v1\n")), Backend::V1);
    }
    assert_eq!(resolve_full_ladder(Some("\tscalar ")), Backend::Scalar);
    assert_eq!(resolve_full_ladder(Some("V1")), resolve_full_ladder(None));
}

#[test]
fn selection_keeps_its_override_variable() {
    let selection = Selection::new("CUSTOM_BACKEND").supports(Backend::ALL);
    assert_eq!(selection.override_var(), "CUSTOM_BACKEND");
}

#[test]
fn padded_scalar_value_forces_scalar() {
    assert_eq!(backend(Some(" scalar\n")), Backend::Scalar);
    assert_eq!(backend(Some("\u{3000}scalar\u{a0}")), Backend::Scalar);
    assert_eq!(resolve_supported(&[Backend::Scalar]), Backend::Scalar);
}
