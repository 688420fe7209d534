//! The one host probe: whether a tier's `archmage` capability token summons
//! on the running CPU.

use vstd::prelude::*;

use archmage::SimdToken;

use crate::backend::{tier, Backend};
use crate::internals::{detect_outcome, resolve_outcome, strongest_summoning, probe_answers, override_outcome, overridden, probes_request};

verus! {

/// Calls `archmage::X64V3GfniCryptoToken::summon` and reports whether it gave
/// a token. What comes back depends on the CPU and the target architecture,
/// so nothing is claimed of it.
#[verifier::external_body]
pub(crate) fn summon_x64_v3_gfni_crypto() -> (r: bool) {
    archmage::X64V3GfniCryptoToken::summon().is_some()
}

/// Calls `archmage::X64V3Token::summon` and reports whether it gave a token.
/// What comes back depends on the CPU, so nothing is claimed of it.
#[verifier::external_body]
pub(crate) fn summon_x64_v3() -> (r: bool) {
    archmage::X64V3Token::summon().is_some()
}

/// Calls `archmage::X64V2Token::summon` and reports whether it gave a token.
/// What comes back depends on the CPU, so nothing is claimed of it.
#[verifier::external_body]
pub(crate) fn summon_x64_v2() -> (r: bool) {
    archmage::X64V2Token::summon().is_some()
}

/// Calls `archmage::X64V1Token::summon` and reports whether it gave a token.
/// What comes back depends on the target architecture (and, under archmage's
/// `testable_dispatch` feature, on a process-wide switch), so nothing is
/// claimed of it.
#[verifier::external_body]
pub(crate) fn summon_x64_v1() -> (r: bool) {
    archmage::X64V1Token::summon().is_some()
}

/// Calls `archmage::NeonAesToken::summon` and reports whether it gave a token.
/// What comes back depends on the CPU, so nothing is claimed of it.
#[verifier::external_body]
pub(crate) fn summon_neon_aes() -> (r: bool) {
    archmage::NeonAesToken::summon().is_some()
}

/// Calls `archmage::NeonToken::summon` and reports whether it gave a token.
/// What comes back depends on the CPU, so nothing is claimed of it.
#[verifier::external_body]
pub(crate) fn summon_neon() -> (r: bool) {
    archmage::NeonToken::summon().is_some()
}

/// Calls `archmage::Wasm128Token::summon` and reports whether it gave a
/// token. What comes back depends on the target, so nothing is claimed of it.
#[verifier::external_body]
pub(crate) fn summon_wasm128() -> (r: bool) {
    archmage::Wasm128Token::summon().is_some()
}

/// Calls `archmage::ScalarToken::summon`, which always returns
/// `Some(ScalarToken)`: the claim is that the result is `true`.
#[verifier::external_body]
pub(crate) fn summon_scalar() -> (r: bool)
    ensures
        r,
{
    archmage::ScalarToken::summon().is_some()
}

/// `r` is an answer of the probe of `b`'s own `archmage` token: each tier
/// asks its own token and no other.
pub open(crate) spec fn answered_by_own_token(b: Backend, r: bool) -> bool {
    match b {
        Backend::V3GfniCrypto => call_ensures(summon_x64_v3_gfni_crypto, (), r),
        Backend::V3 => call_ensures(summon_x64_v3, (), r),
        Backend::V2 => call_ensures(summon_x64_v2, (), r),
        Backend::V1 => call_ensures(summon_x64_v1, (), r),
        Backend::NeonAes => call_ensures(summon_neon_aes, (), r),
        Backend::Neon => call_ensures(summon_neon, (), r),
        Backend::Wasm128 => call_ensures(summon_wasm128, (), r),
        Backend::Scalar => call_ensures(summon_scalar, (), r),
    }
}

impl Backend {
    /// Whether this tier's `archmage` token summons on the current host: the
    /// one probe in the stack. A tier is "on the host" exactly when this is
    /// true. The portable fallback is always on the host.
    #[must_use]
    pub fn probes_on_host(self) -> (r: bool)
        ensures
            answered_by_own_token(self, r),
            self == Backend::Scalar ==> r,
    {
        match self {
            Backend::V3GfniCrypto => summon_x64_v3_gfni_crypto(),
            Backend::V3 => summon_x64_v3(),
            Backend::V2 => summon_x64_v2(),
            Backend::V1 => summon_x64_v1(),
            Backend::NeonAes => summon_neon_aes(),
            Backend::Neon => summon_neon(),
            Backend::Wasm128 => summon_wasm128(),
            Backend::Scalar => summon_scalar(),
        }
    }
}

/// Each tier is answered by its own `archmage` token and by no other: an
/// answer of the host probe for `b` is an answer of the summon of `b`'s token
/// (`X64V3GfniCryptoToken` for `V3GfniCrypto`, `X64V3Token` for `V3`, and so
/// on), and the `Scalar` answer is always `true`.
pub(crate) proof fn lemma_probe_asks_own_token(b: Backend, r: bool)
    requires
        call_ensures(Backend::probes_on_host, (b,), r),
    ensures
        b == Backend::V3GfniCrypto ==> call_ensures(summon_x64_v3_gfni_crypto, (), r),
        b == Backend::V3 ==> call_ensures(summon_x64_v3, (), r),
        b == Backend::V2 ==> call_ensures(summon_x64_v2, (), r),
        b == Backend::V1 ==> call_ensures(summon_x64_v1, (), r),
        b == Backend::NeonAes ==> call_ensures(summon_neon_aes, (), r),
        b == Backend::Neon ==> call_ensures(summon_neon, (), r),
        b == Backend::Wasm128 ==> call_ensures(summon_wasm128, (), r),
        b == Backend::Scalar ==> r,
{
}

/// Against the host, a resolution never gives a vector tier whose own token
/// did not summon: a non-`Scalar` result was accepted by the summon of its
/// own `archmage` token, whether detection found it or the override asked
/// for it. A cross-arch request (`neon` on x86), or a tier the CPU lacks
/// (`v3_gfni_crypto` on an AVX2-only CPU, `neon_aes` without PMULL), is never
/// the answer unless that very token summoned.
pub(crate) proof fn lemma_resolved_tier_summoned(
    supported: Seq<Backend>,
    requested: Option<Backend>,
    r: Backend,
)
    requires
        resolve_outcome(Backend::probes_on_host, supported, requested, r),
    ensures
        r == Backend::V3GfniCrypto ==> call_ensures(summon_x64_v3_gfni_crypto, (), true),
        r == Backend::V3 ==> call_ensures(summon_x64_v3, (), true),
        r == Backend::V2 ==> call_ensures(summon_x64_v2, (), true),
        r == Backend::V1 ==> call_ensures(summon_x64_v1, (), true),
        r == Backend::NeonAes ==> call_ensures(summon_neon_aes, (), true),
        r == Backend::Neon ==> call_ensures(summon_neon, (), true),
        r == Backend::Wasm128 ==> call_ensures(summon_wasm128, (), true),
{
    let f = Backend::probes_on_host;
    let d = choose|d: Backend|
        detect_outcome(f, supported, d) && #[trigger] override_outcome(f, supported, d, requested, r);
    let summons = choose|a: Seq<bool>|
        probe_answers(f, supported, a) && strongest_summoning(supported, a, d);
    let x = choose|x: bool|
        {
            &&& probes_request(supported, requested) ==> call_ensures(f, (requested->0,), x)
            &&& r == #[trigger] overridden(supported, d, requested, x)
        };
    if r != Backend::Scalar {
        if r == d {
            // detection found r: it is a supported entry whose answer was true
            let i = choose|i: int| 0 <= i < supported.len() && #[trigger] summons[i] && supported[i] == d;
            assert(call_ensures(f, (supported[i],), summons[i]));
            lemma_probe_asks_own_token(r, true);
        } else {
            // the override asked for r and the probe of r answered true
            assert(requested == Some(r) && x);
            lemma_probe_asks_own_token(r, true);
        }
    }
}

/// A supported tier whose own token always summons is never skipped:
/// detection against the host gives that tier or a stronger one. On an AVX2
/// CPU where `X64V3Token` summons, a set holding `V3` detects `V3` or better.
pub(crate) proof fn lemma_summoning_tier_not_skipped(supported: Seq<Backend>, b: Backend, d: Backend)
    requires
        supported.contains(b),
        detect_outcome(Backend::probes_on_host, supported, d),
        b == Backend::V3GfniCrypto ==> forall|a: bool|
            call_ensures(summon_x64_v3_gfni_crypto, (), a) ==> a,
        b == Backend::V3 ==> forall|a: bool| call_ensures(summon_x64_v3, (), a) ==> a,
        b == Backend::V2 ==> forall|a: bool| call_ensures(summon_x64_v2, (), a) ==> a,
        b == Backend::V1 ==> forall|a: bool| call_ensures(summon_x64_v1, (), a) ==> a,
        b == Backend::NeonAes ==> forall|a: bool| call_ensures(summon_neon_aes, (), a) ==> a,
        b == Backend::Neon ==> forall|a: bool| call_ensures(summon_neon, (), a) ==> a,
        b == Backend::Wasm128 ==> forall|a: bool| call_ensures(summon_wasm128, (), a) ==> a,
    ensures
        tier(d) <= tier(b),
{
    let f = Backend::probes_on_host;
    let summons = choose|a: Seq<bool>|
        probe_answers(f, supported, a) && strongest_summoning(supported, a, d);
    let i = choose|i: int| 0 <= i < supported.len() && supported[i] == b;
    assert(call_ensures(f, (supported[i],), summons[i]));
    lemma_probe_asks_own_token(b, summons[i]);
    assert(summons[i]);
}

} // verus!
