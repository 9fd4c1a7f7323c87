# timegrapherq

TimegrapherQ measures the running accuracy of a mechanical watch from the
sound of its escapement and keeps a history of measurements per watch.

- `src/` — the verified library (Verus): beat-count and capture rules, the
  device picker list and device selection, the 16-bit PCM WAV writer and
  reader, the SplitMix64 noise generator, live-window and passthrough-ring
  bookkeeping, microphone ownership between live mode and the mic monitor,
  and the storage rules (schema migration, clip filing, missing records).
- `tests/` — tests of the library.
- `app/` — the desktop application around it: the floating-point DSP and
  measurement pipeline, audio capture (`cpal`), file decoding (`symphonia`),
  the SQLite store (`rusqlite`) and the Tauri commands.
