# physicslang

Language tokens as particles in a force field. This crate is the verified
core of the engine; `app/` holds the floating-point dynamics and the network
round trip that use it.

- `src/embed.rs` — the embeddings client configuration and the exact JSON
  body of an embeddings request.
- `src/projection.rs` — the bin plan that folds an embedding of any width into
  the 64-dimensional forge, with the laws that the bins tile the input and are
  balanced.
- `src/charge.rs` — part-of-speech tag to role and syntactic charge,
  independent of ASCII case.
- `src/springs.rs` — which particle pairs are tied by token or sentence
  springs, and the ordered list of all such pairs.
- `app/` — particles, knobs, scars, Kuramoto phases and the integration step
  (all `f32`), the HTTP call to the embedding server, and the float averaging
  of a projection.
