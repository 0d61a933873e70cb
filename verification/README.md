# vibeking

The decision logic of a push-to-talk dictation app, written in Verus and
proved against its contracts.

- `src/` is the verified library: hotkey state machine, transcript joining and
  sanitising, correction learning and the correction dictionary, proper-noun
  extraction and prompt budgeting, cloud and local speech-to-text request
  planning and reply parsing, refinement (polish / translate) prompts and
  replies, tray menu model, window footprint rules, sidecar lifecycle of the
  Gemma server, microphone health and device caching, and the streaming
  preview pipeline. Each public function states its result in `ensures`;
  `law_*` proof functions state properties that span calls.
- `app/` is ordinary Rust around it: audio decoding and float signal levels,
  HTTP calls, JSON (serde) copies of the library's types, and the async
  session loops that perform the actions the library decides.
- `tests/` runs the library on concrete values.

The `regex` crate is called from `src/` through a few trusted wrappers in
`src/corrections.rs`; `src/text.rs` holds the trusted wrappers over std's
Unicode character classes.
