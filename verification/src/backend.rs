//! The backend ladder: [`Backend`], its names, lane widths and parsing.

use vstd::prelude::*;

verus! {

/// The SIMD capability ladder, one variant per `archmage` tier.
///
/// Variants are declared in dispatch-priority order, strongest first. The
/// derived `Ord` follows declaration order, so a weaker tier sorts greater:
/// `requested >= detected` reads "requested is at most as strong as detected".
#[derive(Clone, Copy, Debug, PartialEq, Eq, Structural, Hash, PartialOrd, Ord)]
#[non_exhaustive]
pub enum Backend {
    /// x86 AVX2 + GFNI + crypto (`X64V3GfniCryptoToken`).
    V3GfniCrypto,
    /// x86 AVX2 (`X64V3Token`).
    V3,
    /// x86 SSE4.2 (`X64V2Token`).
    V2,
    /// x86 SSE2 baseline (`X64V1Token`).
    V1,
    /// AArch64 NEON + AES (`NeonAesToken`).
    NeonAes,
    /// AArch64 NEON baseline (`NeonToken`).
    Neon,
    /// WebAssembly `simd128` (`Wasm128Token`).
    Wasm128,
    /// Portable fallback, always present (`ScalarToken`).
    Scalar,
}

/// Position of a backend on the ladder: its declaration index. A smaller
/// position is a stronger tier; the derived `Ord` compares by it.
pub open spec fn tier(b: Backend) -> nat {
    match b {
        Backend::V3GfniCrypto => 0,
        Backend::V3 => 1,
        Backend::V2 => 2,
        Backend::V1 => 3,
        Backend::NeonAes => 4,
        Backend::Neon => 5,
        Backend::Wasm128 => 6,
        Backend::Scalar => 7,
    }
}

/// The stable identifier of a backend.
pub open spec fn name_of(b: Backend) -> Seq<char> {
    match b {
        Backend::V3GfniCrypto => "v3_gfni_crypto"@,
        Backend::V3 => "v3"@,
        Backend::V2 => "v2"@,
        Backend::V1 => "v1"@,
        Backend::NeonAes => "neon_aes"@,
        Backend::Neon => "neon"@,
        Backend::Wasm128 => "wasm128"@,
        Backend::Scalar => "scalar"@,
    }
}

impl Backend {
    /// Short stable identifier, also the value accepted by the
    /// `SIMD_BACKEND` override and by [`Backend::from_name`].
    #[must_use]
    pub fn name(self) -> (r: &'static str)
        ensures
            r@ == name_of(self),
    {
        match self {
            Backend::V3GfniCrypto => "v3_gfni_crypto",
            Backend::V3 => "v3",
            Backend::V2 => "v2",
            Backend::V1 => "v1",
            Backend::NeonAes => "neon_aes",
            Backend::Neon => "neon",
            Backend::Wasm128 => "wasm128",
            Backend::Scalar => "scalar",
        }
    }
}

/// Lane width in bytes of a backend's vectors.
pub open spec fn lane_bytes_of(b: Backend) -> nat {
    match b {
        Backend::V3GfniCrypto | Backend::V3 => 32,
        Backend::V2 | Backend::V1 | Backend::NeonAes | Backend::Neon | Backend::Wasm128 => 16,
        Backend::Scalar => 8,
    }
}

/// The backend a name designates, if any: the parse set is exactly the
/// backends' names.
pub open spec fn backend_named(s: Seq<char>) -> Option<Backend> {
    if s == name_of(Backend::V3GfniCrypto) {
        Some(Backend::V3GfniCrypto)
    } else if s == name_of(Backend::V3) {
        Some(Backend::V3)
    } else if s == name_of(Backend::V2) {
        Some(Backend::V2)
    } else if s == name_of(Backend::V1) {
        Some(Backend::V1)
    } else if s == name_of(Backend::NeonAes) {
        Some(Backend::NeonAes)
    } else if s == name_of(Backend::Neon) {
        Some(Backend::Neon)
    } else if s == name_of(Backend::Wasm128) {
        Some(Backend::Wasm128)
    } else if s == name_of(Backend::Scalar) {
        Some(Backend::Scalar)
    } else {
        None
    }
}

/// Whether two strings hold the same characters.
fn str_eq(a: &str, b: &str) -> (r: bool)
    ensures
        r == (a@ == b@),
{
    let n = a.unicode_len();
    if n != b.unicode_len() {
        return false;
    }
    let mut i: usize = 0;
    while i < n
        invariant
            n == a@.len(),
            n == b@.len(),
            i <= n,
            forall|j: int| 0 <= j < i ==> a@[j] == b@[j],
        decreases n - i,
    {
        if a.get_char(i) != b.get_char(i) {
            return false;
        }
        i = i + 1;
    }
    assert(a@ =~= b@);
    true
}

impl Backend {
    /// Parse a backend name, as accepted by the `SIMD_BACKEND` override.
    #[must_use]
    pub fn from_name(name: &str) -> (r: Option<Backend>)
        ensures
            r == backend_named(name@),
    {
        if str_eq(name, "v3_gfni_crypto") {
            Some(Backend::V3GfniCrypto)
        } else if str_eq(name, "v3") {
            Some(Backend::V3)
        } else if str_eq(name, "v2") {
            Some(Backend::V2)
        } else if str_eq(name, "v1") {
            Some(Backend::V1)
        } else if str_eq(name, "neon_aes") {
            Some(Backend::NeonAes)
        } else if str_eq(name, "neon") {
            Some(Backend::Neon)
        } else if str_eq(name, "wasm128") {
            Some(Backend::Wasm128)
        } else if str_eq(name, "scalar") {
            Some(Backend::Scalar)
        } else {
            None
        }
    }

    /// Architectural vector width in bytes per tier.
    #[must_use]
    pub fn lane_bytes(self) -> (r: usize)
        ensures
            r == lane_bytes_of(self),
    {
        match self {
            Backend::V3GfniCrypto | Backend::V3 => 32,
            Backend::V2 | Backend::V1 | Backend::NeonAes | Backend::Neon | Backend::Wasm128 => 16,
            Backend::Scalar => 8,
        }
    }

    /// The backend's position on the ladder (smaller is stronger), the
    /// order that the derived `Ord` follows.
    pub fn tier_index(self) -> (r: u8)
        ensures
            r == tier(self),
    {
        match self {
            Backend::V3GfniCrypto => 0,
            Backend::V3 => 1,
            Backend::V2 => 2,
            Backend::V1 => 3,
            Backend::NeonAes => 4,
            Backend::Neon => 5,
            Backend::Wasm128 => 6,
            Backend::Scalar => 7,
        }
    }

    /// The backend's name as an owned string: what `Display` writes.
    pub fn to_string(self) -> (r: String)
        ensures
            r@ == name_of(self),
    {
        self.name().to_owned()
    }
}

/// Every backend in detection-preference order: the shipped ladder.
pub open spec fn ladder() -> Seq<Backend> {
    seq![
        Backend::V3GfniCrypto,
        Backend::V3,
        Backend::V2,
        Backend::V1,
        Backend::NeonAes,
        Backend::Neon,
        Backend::Wasm128,
        Backend::Scalar,
    ]
}

impl Backend {
    /// Every backend in detection-preference order: the shipped ladder. It
    /// coerces to `&[Backend]` wherever a slice is expected.
    pub const ALL: &'static [Backend; 8] = &[
        Backend::V3GfniCrypto,
        Backend::V3,
        Backend::V2,
        Backend::V1,
        Backend::NeonAes,
        Backend::Neon,
        Backend::Wasm128,
        Backend::Scalar,
    ];
}

/// The shipped ladder lists every backend once, in declaration order.
pub proof fn lemma_all_is_the_ladder()
    ensures
        Backend::ALL@ == ladder(),
        forall|i: int| 0 <= i < ladder().len() ==> tier(#[trigger] ladder()[i]) == i,
        forall|b: Backend| #[trigger] ladder().contains(b),
{
    assert(Backend::ALL@ =~= ladder());
    assert forall|b: Backend| #[trigger] ladder().contains(b) by {
        assert(ladder()[tier(b) as int] == b);
    }
}

/// Names are pairwise distinct: no two backends share an identifier.
pub proof fn lemma_names_distinct(a: Backend, b: Backend)
    ensures
        name_of(a) == name_of(b) <==> a == b,
{
    reveal_strlit("v3_gfni_crypto");
    reveal_strlit("v3");
    reveal_strlit("v2");
    reveal_strlit("v1");
    reveal_strlit("neon_aes");
    reveal_strlit("neon");
    reveal_strlit("wasm128");
    reveal_strlit("scalar");
    if a != b {
        // equal-length names differ at their second character
        assert(name_of(a).len() != name_of(b).len() || name_of(a)[1] != name_of(b)[1]);
    }
}

/// Ladder order is declaration order: two backends share a position only when
/// they are the same backend.
pub proof fn lemma_tier_injective(a: Backend, b: Backend)
    ensures
        tier(a) == tier(b) <==> a == b,
{
}

/// A name parses to a backend exactly when it is that backend's name; in
/// particular parsing a backend's name gives the backend back.
pub proof fn lemma_name_roundtrip(s: Seq<char>, b: Backend)
    ensures
        backend_named(s) == Some(b) <==> s == name_of(b),
        backend_named(name_of(b)) == Some(b),
{
    assert forall|c: Backend| name_of(c) == name_of(b) implies c == b by {
        lemma_names_distinct(c, b);
    }
}

/// Error returned when a [`Backend`] name is not recognized.
///
/// Its message is given by [`ParseBackendError::to_string`]; `Display` and
/// `std::error::Error` are implemented on the process-level copy of this type
/// that wraps the library.
#[derive(Clone, Copy, Debug, PartialEq, Eq, Structural)]
pub struct ParseBackendError;

impl ParseBackendError {
    /// The error's message: what `Display` writes.
    pub fn to_string(self) -> (r: String)
        ensures
            r@ == "unknown SIMD backend name"@,
    {
        "unknown SIMD backend name".to_owned()
    }
}

impl core::str::FromStr for Backend {
    type Err = ParseBackendError;

    fn from_str(name: &str) -> (r: Result<Backend, ParseBackendError>)
        ensures
            r == match backend_named(name@) {
                Some(b) => Ok(b),
                None => Err(ParseBackendError),
            },
    {
        match Backend::from_name(name) {
            Some(b) => Ok(b),
            None => Err(ParseBackendError),
        }
    }
}

} // verus!
