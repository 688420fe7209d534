# simdispatch

SIMD backend selection, verified with Verus.

- `src/backend.rs`: the capability ladder `Backend` (declaration order is
  dispatch priority, strongest first), names, parsing and lane widths.
- `src/host.rs`: the host probe. Each tier asks its own `archmage` token
  whether it summons; these calls are the crate's only trusted items.
- `src/internals.rs`: detection (strongest supported tier the probe accepts,
  else `Scalar`) and the downgrade-only override, with their laws: order of
  the supported set is irrelevant, the result is supported or `Scalar`, an
  override never upgrades, resolution is deterministic and idempotent for a
  consistent probe.
- `src/selection.rs`: `Selection`, which resolves a consumer's supported set
  against the host and the value of its override variable (trimmed, then
  parsed as a backend name).
- `app/`: reads `SIMD_BACKEND` from the environment, caches the full-ladder
  answer once per process, and carries `Display`/`Error` on its own copies of
  the library's types.
