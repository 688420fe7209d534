use archmage::SimdToken;
use simdispatch::{Backend, ParseBackendError};

/// Whether the tests run on x86_64: archmage reports its x86 baseline token as
/// impossible (`Some(false)`) on every other architecture.
fn on_x86_64() -> bool {
    archmage::X64V1Token::compiled_with() != Some(false)
}

/// Whether the tests run on aarch64, by the same report for the NEON token.
fn on_aarch64() -> bool {
    archmage::NeonToken::compiled_with() != Some(false)
}

/// The archmage tier priorities, one row per ladder entry, in ladder order.
const TIERS_RS_MIRROR: &[(Backend, u32)] = &[
    (Backend::V3GfniCrypto, 37),
    (Backend::V3, 30),
    (Backend::V2, 20),
    (Backend::V1, 10),
    (Backend::NeonAes, 30),
    (Backend::Neon, 20),
    (Backend::Wasm128, 20),
    (Backend::Scalar, 0),
];

#[test]
fn all_pins_variant_order_to_tiers_rs() {
    let mut mirrored_order = [Backend::Scalar; 8];
    for (i, &(backend, _)) in TIERS_RS_MIRROR.iter().enumerate() {
        mirrored_order[i] = backend;
    }
    assert_eq!(Backend::ALL, mirrored_order.as_slice());
}

#[test]
fn order_encodes_capability_within_family() {
    assert!(Backend::V3GfniCrypto < Backend::V3);
    assert!(Backend::V3 < Backend::V2);
    assert!(Backend::V2 < Backend::V1);
    assert!(Backend::NeonAes < Backend::Neon);
    assert!(Backend::Wasm128 < Backend::Scalar);
    assert!(Backend::Neon < Backend::Wasm128);
    assert!(Backend::V3GfniCrypto < Backend::Scalar);
    assert!(Backend::V1 < Backend::NeonAes);
}

#[test]
fn lane_bytes_are_architectural() {
    assert_eq!(Backend::V3GfniCrypto.lane_bytes(), 32);
    assert_eq!(Backend::V3.lane_bytes(), 32);
    assert_eq!(Backend::V2.lane_bytes(), 16);
    assert_eq!(Backend::V1.lane_bytes(), 16);
    assert_eq!(Backend::NeonAes.lane_bytes(), 16);
    assert_eq!(Backend::Neon.lane_bytes(), 16);
    assert_eq!(Backend::Wasm128.lane_bytes(), 16);
    assert_eq!(Backend::Scalar.lane_bytes(), 8);
}

#[test]
fn names_roundtrip() {
    for &backend in Backend::ALL {
        assert_eq!(Backend::from_name(backend.name()), Some(backend));
        assert_eq!(backend.name().parse::<Backend>(), Ok(backend));
    }
}

#[test]
fn display_matches_name() {
    for &backend in Backend::ALL {
        let rendered = backend.to_string();
        assert_eq!(rendered, backend.name());
    }
}

#[test]
fn unknown_and_historical_names_are_rejected() {
    assert_eq!(Backend::from_name("avx2"), None);
    assert_eq!(Backend::from_name("gfni"), None);
    assert_eq!(Backend::from_name("pmull"), None);
    assert_eq!(Backend::from_name("neon_aesx"), None);
    assert_eq!("bogus".parse::<Backend>(), Err(ParseBackendError));
}

#[test]
fn v1_always_summons_on_x86_64() {
    if on_x86_64() {
        assert!(Backend::V1.probes_on_host());
    }
}

#[test]
fn neon_always_summons_on_aarch64() {
    if on_aarch64() {
        assert!(Backend::Neon.probes_on_host());
    }
}

#[test]
fn names_are_the_documented_identifiers() {
    let expected = [
        "v3_gfni_crypto",
        "v3",
        "v2",
        "v1",
        "neon_aes",
        "neon",
        "wasm128",
        "scalar",
    ];
    for (i, &backend) in Backend::ALL.iter().enumerate() {
        assert_eq!(backend.name(), expected[i]);
    }
}

#[test]
fn names_are_pairwise_distinct() {
    for &a in Backend::ALL {
        for &b in Backend::ALL {
            assert_eq!(a.name() == b.name(), a == b);
        }
    }
}

#[test]
fn parsing_is_exact() {
    // Case, surrounding whitespace and prefixes are not accepted by the parser.
    assert_eq!(Backend::from_name("V1"), None);
    assert_eq!(Backend::from_name(" v1"), None);
    assert_eq!(Backend::from_name("v1 "), None);
    assert_eq!(Backend::from_name(""), None);
    assert_eq!(Backend::from_name("v3_gfni"), None);
    assert_eq!(Backend::from_name("neon"), Some(Backend::Neon));
    assert_eq!(Backend::from_name("neon_aes"), Some(Backend::NeonAes));
    assert_eq!("wasm128".parse::<Backend>(), Ok(Backend::Wasm128));
}

#[test]
fn tier_index_follows_declaration_order() {
    for (i, &backend) in Backend::ALL.iter().enumerate() {
        assert_eq!(backend.tier_index() as usize, i);
    }
    for &a in Backend::ALL {
        for &b in Backend::ALL {
            assert_eq!(a < b, a.tier_index() < b.tier_index());
        }
    }
}

#[test]
fn scalar_always_summons() {
    assert!(Backend::Scalar.probes_on_host());
}

#[test]
fn parse_error_message() {
    assert_eq!(ParseBackendError.to_string(), "unknown SIMD backend name");
}
