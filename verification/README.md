# glicol_wasm

Verified pieces of the Glicol audio engine's host bindings and its sawtooth
oscillator, with the unverifiable rest around them.

- `src/saw.rs` — block planning for the sawtooth oscillator: free-running,
  modulated, or clock-gated so that a block is rendered at most once per clock
  tick and replayed from a cache afterwards.
- `src/frame.rs` — little-endian framing of sample bit patterns for the host,
  and the silent block handed over when a render fails.
- `src/text.rs` — UTF-8 decoding of code and sample names.
- `app/` — floating-point sample arithmetic, the `dasp_graph` node impl, the
  Glicol-language composite nodes, and the raw-pointer interface of the engine.
