//! The deterministic resolve core behind [`Selection::resolve`](crate::Selection::resolve),
//! with the host probe and the override handed in directly.
//!
//! A probe is any `Fn(Backend) -> bool`. The contracts speak of the answers it
//! gave, through `call_ensures`; a probe whose answers are a function of the
//! backend makes every result here a function of the inputs.

use vstd::prelude::*;

use crate::backend::{tier, Backend};

verus! {

/// `summons` records one probe answer per entry of `supported`, each a
/// possible answer of `on_host` for that backend.
pub open spec fn probe_answers<F: Fn(Backend) -> bool>(
    on_host: F,
    supported: Seq<Backend>,
    summons: Seq<bool>,
) -> bool {
    &&& summons.len() == supported.len()
    &&& forall|i: int|
        0 <= i < supported.len() ==> call_ensures(on_host, (supported[i],), #[trigger] summons[i])
}

/// `r` is the strongest backend of `supported` whose answer in `summons` is
/// true, or `Scalar` when no answer is true.
pub open spec fn strongest_summoning(supported: Seq<Backend>, summons: Seq<bool>, r: Backend) -> bool {
    if exists|i: int| 0 <= i < supported.len() && #[trigger] summons[i] {
        &&& exists|i: int| 0 <= i < supported.len() && #[trigger] summons[i] && supported[i] == r
        &&& forall|i: int|
            0 <= i < supported.len() && #[trigger] summons[i] ==> tier(r) <= tier(supported[i])
    } else {
        r == Backend::Scalar
    }
}

/// What detection may give: the strongest supported tier that the probe
/// accepted, else `Scalar`.
pub open spec fn detect_outcome<F: Fn(Backend) -> bool>(
    on_host: F,
    supported: Seq<Backend>,
    r: Backend,
) -> bool {
    exists|summons: Seq<bool>|
        probe_answers(on_host, supported, summons) && strongest_summoning(supported, summons, r)
}

/// The downgrade-only override decision for a given probe answer on the
/// request: the request stands only when it is supported, summons on the
/// host and is at most as strong as `detected`.
pub open spec fn overridden(
    supported: Seq<Backend>,
    detected: Backend,
    requested: Option<Backend>,
    answer: bool,
) -> Backend {
    match requested {
        Some(q) => if supported.contains(q) && answer && tier(q) >= tier(detected) {
            q
        } else {
            detected
        },
        None => detected,
    }
}

/// Whether the override decision consults the probe: only for a request
/// that is in the supported set.
pub open spec fn probes_request(supported: Seq<Backend>, requested: Option<Backend>) -> bool {
    requested is Some && supported.contains(requested->0)
}

/// What the override decision may give with this probe.
pub open spec fn override_outcome<F: Fn(Backend) -> bool>(
    on_host: F,
    supported: Seq<Backend>,
    detected: Backend,
    requested: Option<Backend>,
    r: Backend,
) -> bool {
    exists|answer: bool|
        {
            &&& probes_request(supported, requested) ==> call_ensures(
                on_host,
                (requested->0,),
                answer,
            )
            &&& r == #[trigger] overridden(supported, detected, requested, answer)
        }
}

/// What the whole resolution may give with this probe: detection, then the
/// override decision on what detection gave.
pub open spec fn resolve_outcome<F: Fn(Backend) -> bool>(
    on_host: F,
    supported: Seq<Backend>,
    requested: Option<Backend>,
    r: Backend,
) -> bool {
    exists|detected: Backend|
        detect_outcome(on_host, supported, detected) && #[trigger] override_outcome(
            on_host,
            supported,
            detected,
            requested,
            r,
        )
}

/// Whether `b` occurs in `supported` (membership by equality, not strength).
pub(crate) fn contains_backend(supported: &[Backend], b: Backend) -> (r: bool)
    ensures
        r == supported@.contains(b),
{
    let mut i: usize = 0;
    while i < supported.len()
        invariant
            i <= supported@.len(),
            forall|j: int| 0 <= j < i ==> supported@[j] != b,
        decreases supported@.len() - i,
    {
        if supported[i] == b {
            return true;
        }
        i = i + 1;
    }
    false
}

/// The strongest supported tier accepted by `on_host`, else
/// [`Backend::Scalar`]. The order of `supported` is irrelevant.
pub(crate) fn detect_by<F: Fn(Backend) -> bool>(supported: &[Backend], on_host: &F) -> (r: Backend)
    requires
        forall|b: Backend| call_requires(*on_host, (b,)),
    ensures
        detect_outcome(*on_host, supported@, r),
        r == Backend::Scalar || supported@.contains(r),
{
    let ghost mut summons: Seq<bool> = Seq::empty();
    let mut best: Option<Backend> = None;
    let mut i: usize = 0;
    while i < supported.len()
        invariant
            i <= supported@.len(),
            forall|b: Backend| call_requires(*on_host, (b,)),
            probe_answers(*on_host, supported@.take(i as int), summons),
            best is None ==> forall|j: int| 0 <= j < i ==> !#[trigger] summons[j],
            best is Some ==> exists|j: int|
                0 <= j < i && #[trigger] summons[j] && supported@[j] == best->0,
            best is Some ==> forall|j: int|
                0 <= j < i && #[trigger] summons[j] ==> tier(best->0) <= tier(supported@[j]),
        decreases supported@.len() - i,
    {
        let b = supported[i];
        let on = on_host(b);
        let ghost prev = summons;
        proof {
            summons = summons.push(on);
            assert(supported@.take(i + 1) =~= supported@.take(i as int).push(b));
            assert(forall|j: int| 0 <= j < i ==> prev[j] == #[trigger] summons[j]);
            assert(summons[i as int] == on);
        }
        if on {
            match best {
                None => {
                    best = Some(b);
                    assert(summons[i as int] && supported@[i as int] == b);
                },
                Some(bb) => {
                    if b.tier_index() < bb.tier_index() {
                        best = Some(b);
                        assert(summons[i as int] && supported@[i as int] == b);
                    } else {
                        let ghost j = choose|j: int|
                            0 <= j < i && #[trigger] prev[j] && supported@[j] == bb;
                        assert(summons[j] && supported@[j] == bb);
                    }
                },
            }
        } else {
            assert(best is None ==> forall|j: int| 0 <= j <= i ==> !#[trigger] summons[j]) by {
                if best is None {
                    assert forall|j: int| 0 <= j <= i implies !#[trigger] summons[j] by {
                        if j < i {
                            assert(!prev[j]);
                        }
                    }
                }
            }
            proof {
                if best is Some {
                    let j = choose|j: int|
                        0 <= j < i && #[trigger] prev[j] && supported@[j] == best->0;
                    assert(summons[j] && supported@[j] == best->0);
                }
            }
        }
        i = i + 1;
    }
    assert(supported@.take(supported@.len() as int) =~= supported@);
    let r = match best {
        Some(bb) => bb,
        None => Backend::Scalar,
    };
    proof {
        assert(probe_answers(*on_host, supported@, summons));
        if let Some(bb) = best {
            let j = choose|j: int| 0 <= j < supported@.len() && #[trigger] summons[j] && supported@[j] == bb;
            assert(summons[j]);
            assert(supported@.contains(bb));
        }
        assert(strongest_summoning(supported@, summons, r));
    }
    r
}

/// The downgrade-only override decision.
pub(crate) fn apply_override_by<F: Fn(Backend) -> bool>(
    supported: &[Backend],
    detected: Backend,
    requested: Option<Backend>,
    on_host: &F,
) -> (r: Backend)
    requires
        forall|b: Backend| call_requires(*on_host, (b,)),
    ensures
        override_outcome(*on_host, supported@, detected, requested, r),
        r == detected || (requested == Some(r) && supported@.contains(r)),
        tier(r) >= tier(detected),
{
    match requested {
        Some(q) => {
            if contains_backend(supported, q) {
                let answer = on_host(q);
                let r = if answer && q.tier_index() >= detected.tier_index() {
                    q
                } else {
                    detected
                };
                assert(r == overridden(supported@, detected, requested, answer));
                r
            } else {
                assert(detected == overridden(supported@, detected, requested, false));
                detected
            }
        },
        None => {
            assert(detected == overridden(supported@, detected, requested, false));
            detected
        },
    }
}

/// The deterministic resolve core behind
/// [`Selection::resolve`](crate::Selection::resolve), with the host probe and
/// the override injected directly: detection, then the downgrade-only
/// override decision.
pub fn resolve_with(
    supported: &[Backend],
    on_host: impl Fn(Backend) -> bool,
    requested: Option<Backend>,
) -> (r: Backend)
    requires
        forall|b: Backend| call_requires(on_host, (b,)),
    ensures
        resolve_outcome(on_host, supported@, requested, r),
        r == Backend::Scalar || supported@.contains(r),
{
    let detected = detect_by(supported, &on_host);
    apply_override_by(supported, detected, requested, &on_host)
}

/// The downgrade-only override decision, standalone: `requested` is
/// accepted only when it is in `supported`, summons on the host (`on_host`)
/// and is at most as strong as `detected`; otherwise `detected` stands.
pub fn apply_override(
    supported: &[Backend],
    detected: Backend,
    requested: Option<Backend>,
    on_host: impl Fn(Backend) -> bool,
) -> (r: Backend)
    requires
        forall|b: Backend| call_requires(on_host, (b,)),
    ensures
        override_outcome(on_host, supported@, detected, requested, r),
        r == detected || (requested == Some(r) && supported@.contains(r)),
        tier(r) >= tier(detected),
{
    apply_override_by(supported, detected, requested, &on_host)
}

/// Strongest supported tier accepted by `on_host`, else [`Backend::Scalar`].
pub fn detect(supported: &[Backend], on_host: impl Fn(Backend) -> bool) -> (r: Backend)
    requires
        forall|b: Backend| call_requires(on_host, (b,)),
    ensures
        detect_outcome(on_host, supported@, r),
        r == Backend::Scalar || supported@.contains(r),
{
    detect_by(supported, &on_host)
}

/// The probe gives one answer per backend: every call on the same backend
/// gives the same answer.
pub open spec fn answers_consistently<F: Fn(Backend) -> bool>(on_host: F) -> bool {
    forall|b: Backend, x: bool, y: bool|
        call_ensures(on_host, (b,), x) && call_ensures(on_host, (b,), y) ==> x == y
}

/// With a consistent probe, two recorded answer lists agree wherever they
/// record the same backend.
proof fn lemma_answers_agree<F: Fn(Backend) -> bool>(
    on_host: F,
    s1: Seq<Backend>,
    a1: Seq<bool>,
    s2: Seq<Backend>,
    a2: Seq<bool>,
    i: int,
) -> (j: int)
    requires
        answers_consistently(on_host),
        probe_answers(on_host, s1, a1),
        probe_answers(on_host, s2, a2),
        0 <= i < s1.len(),
        s2.contains(s1[i]),
    ensures
        0 <= j < s2.len(),
        s2[j] == s1[i],
        a2[j] == a1[i],
{
    let j = choose|j: int| 0 <= j < s2.len() && s2[j] == s1[i];
    assert(call_ensures(on_host, (s1[i],), a1[i]));
    assert(call_ensures(on_host, (s2[j],), a2[j]));
    j
}

/// The order of the supported set is irrelevant: with a consistent probe,
/// detection over two lists that hold the same backends gives the same tier.
pub proof fn lemma_detect_ignores_order<F: Fn(Backend) -> bool>(
    on_host: F,
    s1: Seq<Backend>,
    s2: Seq<Backend>,
    r1: Backend,
    r2: Backend,
)
    requires
        answers_consistently(on_host),
        s1.to_set() == s2.to_set(),
        detect_outcome(on_host, s1, r1),
        detect_outcome(on_host, s2, r2),
    ensures
        r1 == r2,
{
    let a1 = choose|a: Seq<bool>| probe_answers(on_host, s1, a) && strongest_summoning(s1, a, r1);
    let a2 = choose|a: Seq<bool>| probe_answers(on_host, s2, a) && strongest_summoning(s2, a, r2);
    assert forall|b: Backend| s1.contains(b) <==> s2.contains(b) by {
        broadcast use vstd::set::group_set_axioms;

        assert(s1.to_set().contains(b) == s1.contains(b));
        assert(s2.to_set().contains(b) == s2.contains(b));
    }
    if exists|i: int| 0 <= i < s1.len() && #[trigger] a1[i] {
        let i = choose|i: int| 0 <= i < s1.len() && #[trigger] a1[i];
        let j = lemma_answers_agree(on_host, s1, a1, s2, a2, i);
        assert(a2[j]);
        // r1 is a summoning member of s1, hence of s2, so r2 is at least as strong
        let k1 = choose|k: int| 0 <= k < s1.len() && #[trigger] a1[k] && s1[k] == r1;
        let j1 = lemma_answers_agree(on_host, s1, a1, s2, a2, k1);
        assert(a2[j1]);
        let k2 = choose|k: int| 0 <= k < s2.len() && #[trigger] a2[k] && s2[k] == r2;
        let j2 = lemma_answers_agree(on_host, s2, a2, s1, a1, k2);
        assert(a1[j2]);
        assert(tier(r2) <= tier(s2[j1]));
        assert(tier(r1) <= tier(s1[j2]));
    } else {
        assert forall|j: int| 0 <= j < s2.len() implies !#[trigger] a2[j] by {
            let i = lemma_answers_agree(on_host, s2, a2, s1, a1, j);
        }
    }
}

/// What the resolution gives is a supported backend or `Scalar`.
pub proof fn lemma_resolved_is_supported_or_scalar<F: Fn(Backend) -> bool>(
    on_host: F,
    supported: Seq<Backend>,
    requested: Option<Backend>,
    r: Backend,
)
    requires
        resolve_outcome(on_host, supported, requested, r),
    ensures
        r == Backend::Scalar || supported.contains(r),
{
    let d = choose|d: Backend|
        detect_outcome(on_host, supported, d) && #[trigger] override_outcome(
            on_host,
            supported,
            d,
            requested,
            r,
        );
    let summons = choose|summons: Seq<bool>|
        probe_answers(on_host, supported, summons) && strongest_summoning(supported, summons, d);
    if exists|i: int| 0 <= i < supported.len() && #[trigger] summons[i] {
        let i = choose|i: int| 0 <= i < supported.len() && #[trigger] summons[i] && supported[i] == d;
        assert(supported.contains(d));
    }
}

/// Resolution is a function of its inputs: with a consistent probe, two
/// resolutions of the same supported set and request agree.
pub proof fn lemma_resolve_is_deterministic<F: Fn(Backend) -> bool>(
    on_host: F,
    supported: Seq<Backend>,
    requested: Option<Backend>,
    r1: Backend,
    r2: Backend,
)
    requires
        answers_consistently(on_host),
        resolve_outcome(on_host, supported, requested, r1),
        resolve_outcome(on_host, supported, requested, r2),
    ensures
        r1 == r2,
{
    let d1 = choose|d: Backend|
        detect_outcome(on_host, supported, d) && #[trigger] override_outcome(
            on_host,
            supported,
            d,
            requested,
            r1,
        );
    let d2 = choose|d: Backend|
        detect_outcome(on_host, supported, d) && #[trigger] override_outcome(
            on_host,
            supported,
            d,
            requested,
            r2,
        );
    lemma_detect_ignores_order(on_host, supported, supported, d1, d2);
    let x = choose|x: bool|
        {
            &&& probes_request(supported, requested) ==> call_ensures(on_host, (requested->0,), x)
            &&& r1 == #[trigger] overridden(supported, d1, requested, x)
        };
    let y = choose|y: bool|
        {
            &&& probes_request(supported, requested) ==> call_ensures(on_host, (requested->0,), y)
            &&& r2 == #[trigger] overridden(supported, d2, requested, y)
        };
}

/// The override only ever downgrades: the result is the detected tier, or
/// the request itself when it is supported, the probe accepted it and it is
/// at most as strong as the detected tier.
pub proof fn lemma_override_is_downgrade_only<F: Fn(Backend) -> bool>(
    on_host: F,
    supported: Seq<Backend>,
    detected: Backend,
    requested: Option<Backend>,
    r: Backend,
)
    requires
        override_outcome(on_host, supported, detected, requested, r),
    ensures
        tier(r) >= tier(detected),
        r == detected || {
            &&& requested == Some(r)
            &&& supported.contains(r)
            &&& call_ensures(on_host, (r,), true)
        },
{
    let a = choose|a: bool|
        {
            &&& probes_request(supported, requested) ==> call_ensures(on_host, (requested->0,), a)
            &&& r == #[trigger] overridden(supported, detected, requested, a)
        };
}

/// A request for `Scalar` forces `Scalar` whenever `Scalar` is supported and
/// the probe always accepts it.
pub proof fn lemma_scalar_request_forces_scalar<F: Fn(Backend) -> bool>(
    on_host: F,
    supported: Seq<Backend>,
    r: Backend,
)
    requires
        supported.contains(Backend::Scalar),
        forall|a: bool| call_ensures(on_host, (Backend::Scalar,), a) ==> a,
        resolve_outcome(on_host, supported, Some(Backend::Scalar), r),
    ensures
        r == Backend::Scalar,
{
    let d = choose|d: Backend|
        detect_outcome(on_host, supported, d) && #[trigger] override_outcome(
            on_host,
            supported,
            d,
            Some(Backend::Scalar),
            r,
        );
    let a = choose|a: bool|
        {
            &&& probes_request(supported, Some(Backend::Scalar)) ==> call_ensures(
                on_host,
                (Backend::Scalar,),
                a,
            )
            &&& r == #[trigger] overridden(supported, d, Some(Backend::Scalar), a)
        };
}

/// A consumer that supports nothing but `Scalar` (or nothing at all)
/// resolves to `Scalar`, whatever the host and the request.
pub proof fn lemma_scalar_only_set_resolves_to_scalar<F: Fn(Backend) -> bool>(
    on_host: F,
    supported: Seq<Backend>,
    requested: Option<Backend>,
    r: Backend,
)
    requires
        forall|i: int| 0 <= i < supported.len() ==> supported[i] == Backend::Scalar,
        resolve_outcome(on_host, supported, requested, r),
    ensures
        r == Backend::Scalar,
{
    lemma_resolved_is_supported_or_scalar(on_host, supported, requested, r);
}

/// The downgrade guard is implied by the other checks: with a consistent
/// probe, a request that is supported and that the probe accepts is always
/// honored, since detection found nothing stronger than what it saw summon.
pub proof fn lemma_summoning_supported_request_is_honored<F: Fn(Backend) -> bool>(
    on_host: F,
    supported: Seq<Backend>,
    q: Backend,
    r: Backend,
)
    requires
        answers_consistently(on_host),
        supported.contains(q),
        call_ensures(on_host, (q,), true),
        resolve_outcome(on_host, supported, Some(q), r),
    ensures
        r == q,
{
    let d = choose|d: Backend|
        detect_outcome(on_host, supported, d) && #[trigger] override_outcome(
            on_host,
            supported,
            d,
            Some(q),
            r,
        );
    let summons = choose|summons: Seq<bool>|
        probe_answers(on_host, supported, summons) && strongest_summoning(supported, summons, d);
    let i = choose|i: int| 0 <= i < supported.len() && supported[i] == q;
    assert(call_ensures(on_host, (supported[i],), summons[i]));
    assert(summons[i]);
    assert(tier(d) <= tier(supported[i]));
    let a = choose|a: bool|
        {
            &&& probes_request(supported, Some(q)) ==> call_ensures(on_host, (q,), a)
            &&& r == #[trigger] overridden(supported, d, Some(q), a)
        };
}

/// Detection is monotone in the supported set: with a consistent probe,
/// supporting more backends never gives a weaker tier.
pub proof fn lemma_detect_monotone_in_supported<F: Fn(Backend) -> bool>(
    on_host: F,
    s1: Seq<Backend>,
    s2: Seq<Backend>,
    r1: Backend,
    r2: Backend,
)
    requires
        answers_consistently(on_host),
        forall|b: Backend| s1.contains(b) ==> s2.contains(b),
        detect_outcome(on_host, s1, r1),
        detect_outcome(on_host, s2, r2),
    ensures
        tier(r2) <= tier(r1),
{
    let a1 = choose|a: Seq<bool>| probe_answers(on_host, s1, a) && strongest_summoning(s1, a, r1);
    let a2 = choose|a: Seq<bool>| probe_answers(on_host, s2, a) && strongest_summoning(s2, a, r2);
    if exists|i: int| 0 <= i < s1.len() && #[trigger] a1[i] {
        let k1 = choose|k: int| 0 <= k < s1.len() && #[trigger] a1[k] && s1[k] == r1;
        assert(s1.contains(s1[k1]));
        let j1 = lemma_answers_agree(on_host, s1, a1, s2, a2, k1);
        assert(a2[j1]);
        assert(tier(r2) <= tier(s2[j1]));
    } else {
        assert(r1 == Backend::Scalar);
        // every tier is at most as weak as Scalar
    }
}

/// Detection is monotone in the host: a probe that accepts everything another
/// probe accepts never gives a weaker tier for the same supported set.
pub proof fn lemma_detect_monotone_in_probe<F: Fn(Backend) -> bool, G: Fn(Backend) -> bool>(
    f: F,
    g: G,
    supported: Seq<Backend>,
    rf: Backend,
    rg: Backend,
)
    requires
        forall|b: Backend, x: bool, y: bool|
            call_ensures(f, (b,), x) && call_ensures(g, (b,), y) && x ==> y,
        detect_outcome(f, supported, rf),
        detect_outcome(g, supported, rg),
    ensures
        tier(rg) <= tier(rf),
{
    let af = choose|a: Seq<bool>| probe_answers(f, supported, a) && strongest_summoning(supported, a, rf);
    let ag = choose|a: Seq<bool>| probe_answers(g, supported, a) && strongest_summoning(supported, a, rg);
    if exists|i: int| 0 <= i < supported.len() && #[trigger] af[i] {
        let k = choose|k: int| 0 <= k < supported.len() && #[trigger] af[k] && supported[k] == rf;
        assert(call_ensures(f, (supported[k],), af[k]));
        assert(call_ensures(g, (supported[k],), ag[k]));
        assert(ag[k]);
        assert(tier(rg) <= tier(supported[k]));
    }
}

/// Resolution is idempotent: with a consistent probe, requesting the backend
/// that a resolution gave resolves to that same backend.
pub proof fn lemma_resolve_is_idempotent<F: Fn(Backend) -> bool>(
    on_host: F,
    supported: Seq<Backend>,
    requested: Option<Backend>,
    r: Backend,
    again: Backend,
)
    requires
        answers_consistently(on_host),
        resolve_outcome(on_host, supported, requested, r),
        resolve_outcome(on_host, supported, Some(r), again),
    ensures
        again == r,
{
    let d1 = choose|d: Backend|
        detect_outcome(on_host, supported, d) && #[trigger] override_outcome(
            on_host,
            supported,
            d,
            requested,
            r,
        );
    let d2 = choose|d: Backend|
        detect_outcome(on_host, supported, d) && #[trigger] override_outcome(
            on_host,
            supported,
            d,
            Some(r),
            again,
        );
    lemma_detect_ignores_order(on_host, supported, supported, d1, d2);
    let x = choose|x: bool|
        {
            &&& probes_request(supported, requested) ==> call_ensures(on_host, (requested->0,), x)
            &&& r == #[trigger] overridden(supported, d1, requested, x)
        };
    let y = choose|y: bool|
        {
            &&& probes_request(supported, Some(r)) ==> call_ensures(on_host, (r,), y)
            &&& again == #[trigger] overridden(supported, d2, Some(r), y)
        };
    if r != d1 {
        // the first request was honoured: supported, accepted, not stronger
        assert(requested == Some(r) && supported.contains(r) && x);
        assert(y);
    }
}

} // verus!
