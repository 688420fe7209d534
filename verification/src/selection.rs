//! The selection primitive: a consumer declares the backends it implements
//! and resolves the choice for the current host.

use vstd::prelude::*;

use crate::backend::{backend_named, lemma_name_roundtrip, name_of, Backend};
use crate::internals::{apply_override_by, detect_by, resolve_outcome};

verus! {

/// Unicode `White_Space`: the characters that `char::is_whitespace`, and so
/// `str::trim`, treat as whitespace.
pub open spec fn is_white_space(c: char) -> bool {
    let u = c as u32;
    ||| 0x09 <= u <= 0x0d
    ||| u == 0x20
    ||| u == 0x85
    ||| u == 0xa0
    ||| u == 0x1680
    ||| 0x2000 <= u <= 0x200a
    ||| u == 0x2028
    ||| u == 0x2029
    ||| u == 0x202f
    ||| u == 0x205f
    ||| u == 0x3000
}

/// `s` without its leading whitespace.
pub open spec fn trim_start(s: Seq<char>) -> Seq<char>
    decreases s.len(),
{
    if s.len() > 0 && is_white_space(s[0]) {
        trim_start(s.drop_first())
    } else {
        s
    }
}

/// `s` without its trailing whitespace.
pub open spec fn trim_end(s: Seq<char>) -> Seq<char>
    decreases s.len(),
{
    if s.len() > 0 && is_white_space(s.last()) {
        trim_end(s.drop_last())
    } else {
        s
    }
}

/// `s` without its leading and trailing whitespace.
pub open spec fn trimmed(s: Seq<char>) -> Seq<char> {
    trim_end(trim_start(s))
}

/// Whether `c` is Unicode `White_Space`.
fn is_white_space_char(c: char) -> (r: bool)
    ensures
        r == is_white_space(c),
{
    let u = c as u32;
    (0x09 <= u && u <= 0x0d) || u == 0x20 || u == 0x85 || u == 0xa0 || u == 0x1680 || (0x2000
        <= u && u <= 0x200a) || u == 0x2028 || u == 0x2029 || u == 0x202f || u == 0x205f || u
        == 0x3000
}

/// `s` without its leading and trailing whitespace, as `str::trim` gives it.
fn trim<'a>(s: &'a str) -> (r: &'a str)
    ensures
        r@ == trimmed(s@),
{
    let n = s.unicode_len();
    let mut i: usize = 0;
    while i < n && is_white_space_char(s.get_char(i))
        invariant
            n == s@.len(),
            i <= n,
            forall|k: int| 0 <= k < i ==> is_white_space(#[trigger] s@[k]),
        decreases n - i,
    {
        i = i + 1;
    }
    let mut j: usize = n;
    while j > i && is_white_space_char(s.get_char(j - 1))
        invariant
            n == s@.len(),
            i <= j <= n,
            forall|k: int| j <= k < n ==> is_white_space(#[trigger] s@[k]),
        decreases j - i,
    {
        j = j - 1;
    }
    proof {
        let w = s@.subrange(0, i as int);
        let t = s@.subrange(i as int, j as int);
        let x = s@.subrange(j as int, n as int);
        assert(s@ =~= w + (t + x));
        assert(t + x =~= s@.subrange(i as int, n as int));
        lemma_trim_start_skips(w, t + x);
        if i < n {
            // the scan stopped at a non-whitespace character, which is kept
            assert(!is_white_space(s@[i as int]));
            assert(j > i);
            assert(!is_white_space(t.last()));
        }
        lemma_trim_end_skips(t, x);
    }
    s.substring_char(i, j)
}

/// Whitespace before a string is dropped by `trim_start`.
proof fn lemma_trim_start_skips(w: Seq<char>, t: Seq<char>)
    requires
        forall|i: int| 0 <= i < w.len() ==> is_white_space(#[trigger] w[i]),
        t.len() == 0 || !is_white_space(t[0]),
    ensures
        trim_start(w + t) == t,
    decreases w.len(),
{
    if w.len() == 0 {
        assert(w + t =~= t);
    } else {
        assert((w + t).drop_first() =~= w.drop_first() + t);
        assert(is_white_space(w[0]));
        lemma_trim_start_skips(w.drop_first(), t);
    }
}

/// Whitespace after a string is dropped by `trim_end`.
proof fn lemma_trim_end_skips(t: Seq<char>, x: Seq<char>)
    requires
        forall|i: int| 0 <= i < x.len() ==> is_white_space(#[trigger] x[i]),
        t.len() == 0 || !is_white_space(t.last()),
    ensures
        trim_end(t + x) == t,
    decreases x.len(),
{
    if x.len() == 0 {
        assert(t + x =~= t);
    } else {
        assert((t + x).drop_last() =~= t + x.drop_last());
        assert((t + x).last() == x[x.len() - 1]);
        lemma_trim_end_skips(t, x.drop_last());
    }
}

/// Trimming gives back the word inside any surrounding whitespace: a word
/// that neither starts nor ends with whitespace, padded with whitespace on
/// both sides, trims to the word.
pub proof fn lemma_trimmed_word(w: Seq<char>, t: Seq<char>, x: Seq<char>)
    requires
        forall|i: int| 0 <= i < w.len() ==> is_white_space(#[trigger] w[i]),
        forall|i: int| 0 <= i < x.len() ==> is_white_space(#[trigger] x[i]),
        t.len() > 0,
        !is_white_space(t[0]),
        !is_white_space(t.last()),
    ensures
        trimmed(w + t + x) == t,
{
    assert((t + x)[0] == t[0]);
    lemma_trim_start_skips(w, t + x);
    assert(w + t + x =~= w + (t + x));
    lemma_trim_end_skips(t, x);
}

/// A `SIMD_BACKEND` value that spells a backend's name, with any whitespace
/// around it, requests that backend; `"scalar"` requests `Scalar`.
pub proof fn lemma_padded_name_requests_backend(
    v: &str,
    w: Seq<char>,
    b: Backend,
    x: Seq<char>,
)
    requires
        v@ == w + name_of(b) + x,
        forall|i: int| 0 <= i < w.len() ==> is_white_space(#[trigger] w[i]),
        forall|i: int| 0 <= i < x.len() ==> is_white_space(#[trigger] x[i]),
    ensures
        requested_backend(Some(v)) == Some(b),
{
    reveal_strlit("v3_gfni_crypto");
    reveal_strlit("v3");
    reveal_strlit("v2");
    reveal_strlit("v1");
    reveal_strlit("neon_aes");
    reveal_strlit("neon");
    reveal_strlit("wasm128");
    reveal_strlit("scalar");
    let t = name_of(b);
    assert(t.len() > 0);
    assert(!is_white_space(t[0]) && !is_white_space(t.last()));
    lemma_trimmed_word(w, t, x);
    lemma_name_roundtrip(t, b);
}

/// An override value requests a backend exactly when its trimmed form is that
/// backend's name. A value whose trimmed form is no backend name (the empty
/// string, or only whitespace, or an unknown word) requests nothing.
pub proof fn lemma_requested_backend_exact(v: &str)
    ensures
        forall|b: Backend|
            requested_backend(Some(v)) == Some(b) <==> trimmed(v@) == #[trigger] name_of(b),
        (forall|b: Backend| trimmed(v@) != #[trigger] name_of(b)) ==> requested_backend(Some(v))
            is None,
        trimmed(v@).len() == 0 ==> requested_backend(Some(v)) is None,
{
    reveal_strlit("v3_gfni_crypto");
    reveal_strlit("v3");
    reveal_strlit("v2");
    reveal_strlit("v1");
    reveal_strlit("neon_aes");
    reveal_strlit("neon");
    reveal_strlit("wasm128");
    reveal_strlit("scalar");
    assert forall|b: Backend|
        requested_backend(Some(v)) == Some(b) <==> trimmed(v@) == #[trigger] name_of(b) by {
        lemma_name_roundtrip(trimmed(v@), b);
    }
    if trimmed(v@).len() == 0 {
        assert forall|b: Backend| trimmed(v@) != #[trigger] name_of(b) by {
            assert(name_of(b).len() > 0);
        }
    }
}

/// The backend an override value requests: the value, trimmed, parsed as a
/// backend name. An absent or unknown value requests nothing.
pub open spec fn requested_backend(value: Option<&str>) -> Option<Backend> {
    match value {
        Some(v) => backend_named(trimmed(v@)),
        None => None,
    }
}

/// A resolve pipeline: host detection via `archmage` `summon()`, narrowed to
/// a consumer's supported set, then adjusted by a downgrade-only override.
///
/// The override is the value of the environment variable named by
/// [`Selection::override_var`]; whoever reads the environment hands that
/// value to [`Selection::resolve`].
#[derive(Clone, Copy)]
pub struct Selection {
    override_var: &'static str,
    supported: &'static [Backend],
}

impl Selection {
    /// The name of the environment variable that holds the override.
    pub closed spec fn override_name(self) -> Seq<char> {
        self.override_var@
    }

    /// The backends this consumer implements.
    pub closed spec fn supported_backends(self) -> Seq<Backend> {
        self.supported@
    }

    /// Start a selection with an empty supported set, reading the override
    /// from the named environment variable.
    #[must_use]
    pub fn new(override_var: &'static str) -> (r: Selection)
        ensures
            r.override_name() == override_var@,
            r.supported_backends() == Seq::<Backend>::empty(),
    {
        Selection { override_var, supported: &[] }
    }

    /// Declare the backends this consumer implements. Order is irrelevant:
    /// capability order comes from [`Backend`], host proof from `summon()`.
    #[must_use]
    pub fn supports(self, supported: &'static [Backend]) -> (r: Selection)
        ensures
            r.override_name() == self.override_name(),
            r.supported_backends() == supported@,
    {
        Selection { override_var: self.override_var, supported }
    }

    /// The name of the environment variable that holds the override.
    pub fn override_var(&self) -> (r: &'static str)
        ensures
            r@ == self.override_name(),
    {
        self.override_var
    }

    /// Resolve the backend for this host, given the override value (the
    /// content of the override variable, if it is set).
    ///
    /// 1. Detect: the strongest supported tier whose `archmage` token summons
    ///    on this host; `Scalar` if none does or the set is empty.
    /// 2. Override, downgrade-only: the trimmed value is taken as a backend
    ///    name; it is accepted only when it names a supported backend that
    ///    itself summons on this host and is at most as strong as the
    ///    detected one. Anything else is ignored.
    #[must_use]
    pub fn resolve(self, override_value: Option<&str>) -> (r: Backend)
        ensures
            resolve_outcome(
                Backend::probes_on_host,
                self.supported_backends(),
                requested_backend(override_value),
                r,
            ),
            r == Backend::Scalar || self.supported_backends().contains(r),
            requested_backend(override_value) == Some(Backend::Scalar)
                && self.supported_backends().contains(Backend::Scalar) ==> r == Backend::Scalar,
            forall|b: Backend|
                override_value is Some && trimmed(override_value->0@) == #[trigger] name_of(b)
                    ==> resolve_outcome(
                    Backend::probes_on_host,
                    self.supported_backends(),
                    Some(b),
                    r,
                ),
            override_value is None || (forall|b: Backend|
                trimmed(override_value->0@) != #[trigger] name_of(b)) ==> resolve_outcome(
                Backend::probes_on_host,
                self.supported_backends(),
                None,
                r,
            ),
    {
        proof {
            if override_value is Some {
                lemma_requested_backend_exact(override_value->0);
            }
        }
        let requested = match override_value {
            Some(v) => Backend::from_name(trim(v)),
            None => None,
        };
        let on_host = Backend::probes_on_host;
        let detected = detect_by(self.supported, &on_host);
        apply_override_by(self.supported, detected, requested, &on_host)
    }
}

} // verus!
