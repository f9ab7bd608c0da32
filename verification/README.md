# zk_jam

A verified library for the client-independent JAM Refine interface and the bounded PVM
pipelines that prove it: canonical binary codecs for refine cases, programs, witnesses,
results and exports; program admission; a bounded reference PVM machine and memory; the
generic translation of the benchmark workloads; PVM gas accounting; the OpenVM public
values; the M4 benchmark report rules, their aggregation and their CSV and Markdown views; the
statement, context and readiness decisions of an M4 proving run; the cost-model workloads; the
checks around the ZkRefine Profile v1 reference fixture; and the checks of the M5 run over the
reference adapter's output.

The functions in `src/` are checked by Verus against `requires`/`ensures` contracts; the codec
methods take theirs from the `CanonicalCodec` trait that they implement. The library states its
laws as public proof functions next to the code they are about: for example, that every codec
decodes what it encodes, that the codecs accept only canonical bytes (except that a profile
flag byte other than 0 or 1, in a profile or in a case, also decodes as `true`), that program and case admission
accept exactly the inputs that meet their stated rules, that the input commitments depend on
the inputs alone, that a memory write is read back exactly and touches nothing else, that a
newly mapped page reads zero, that execution never changes the page map, and that a tampered
ZkRefine statement is never accepted.

Layout:

- `src/` — the verified library (one module per concern; `codec.rs` holds the shared
  encoding and reading specifications).
- `tests/` — executable tests against the library.
- `app/` — the `zk-jam` command line: file I/O, JSON views, environment and process access,
  and floating-point summaries, all around calls into the library.

Hashes (BLAKE2b-256, SHA-256, Keccak-256) come from `blake2b_simd`, `sha2` and
`tiny-keccak`; the library names their digests and states nothing else about them.
