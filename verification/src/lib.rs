//! SIMD backend selection: the capability ladder ([`Backend`]) and the
//! downgrade-only resolution of a consumer's backend ([`Selection`]).
//!
//! The host probe goes through `archmage` capability tokens; everything that
//! decides which backend is chosen is verified here.

mod backend;
mod host;
pub mod internals;
mod selection;

pub use backend::{Backend, ParseBackendError};
pub use selection::Selection;

use vstd::prelude::*;

use crate::backend::{ladder, name_of};
use crate::internals::resolve_outcome;
use crate::selection::{requested_backend, trimmed};

verus! {

/// The backend the full ladder [`Backend::ALL`] resolves to on this host,
/// given the value of the `SIMD_BACKEND` override (if it is set).
///
/// This is the un-narrowed answer: the strongest backend a consumer that
/// implemented every tier could use.
#[must_use]
pub fn backend(override_value: Option<&str>) -> (r: Backend)
    ensures
        resolve_outcome(Backend::probes_on_host, ladder(), requested_backend(override_value), r),
        requested_backend(override_value) == Some(Backend::Scalar) ==> r == Backend::Scalar,
        forall|b: Backend|
            override_value is Some && trimmed(override_value->0@) == #[trigger] name_of(b)
                ==> resolve_outcome(Backend::probes_on_host, ladder(), Some(b), r),
        override_value is None || (forall|b: Backend|
            trimmed(override_value->0@) != #[trigger] name_of(b)) ==> resolve_outcome(
            Backend::probes_on_host,
            ladder(),
            None,
            r,
        ),
{
    proof {
        backend::lemma_all_is_the_ladder();
    }
    Selection::new("SIMD_BACKEND").supports(Backend::ALL).resolve(override_value)
}

} // verus!
