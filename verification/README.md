# laurn

A deterministic state-transition verification core, verified with Verus.

- `src/` — the library. Its functions carry contracts that Verus proves,
  except the few `#[verifier::external_body]` wrappers around the outside
  crates (BLAKE3, Ed25519, constant-time comparison, the seeded generator,
  the file-system probe), whose contracts are trusted as documented beside
  them; the laws of the library (round trips of the wire formats, what
  verification accepts, what epochs bind, what divergence analysis reports)
  are public proof functions beside the code they speak of.
- `tests/` — tests of the library on concrete values.
- `app/` — what stays outside the verified library: the C ABI functions and
  their logger, floating-point canonicalisation, and the inspector and
  simulator tools.
