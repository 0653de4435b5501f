# thz_runtime

Native runtime of the THZ language, written in Verus: the library in `src/` is
verified, `app/` holds the C interface around it.

- `src/arena.rs` — bump allocator over one buffer (addresses, alignment, reset).
- `src/numero.rs` — decimal rendering of integers and fixed-point values.
- `src/texto.rs` — C-string helpers (length, byte at, substring, NUL handling).
- `src/ml.rs` — feature-hashing text embeddings (the additions; summing them in
  `f32` and normalising is done in `app/ml.rs`).
- `src/llm.rs` — model configuration, model-file checks, replies and sessions of
  the local language-model backend.
- `src/crypto.rs` — Argon2id password hashing and AES-256-GCM, through the
  `argon2` and `aes-gcm` crates.
- `src/wasm.rs` — version of the WebAssembly engine.
- `app/` — `extern "C"` functions, buffer allocation, files, console output and
  everything that computes with floats.
