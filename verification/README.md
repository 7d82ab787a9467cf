# ecosystem

Configuration handling for a small service, verified with Verus.

- `src/mode.rs`: run modes (`dev`, `staging`, `prod`, `test`, any ASCII case) and log levels.
- `src/config.rs`: the configuration schema; the `toml` crate reads the TOML syntax, the
  library decides what the top-level table means (`port` nonzero, `mode` a mode name,
  optional `log_level`, no other keys).
- `src/document.rs`: the TOML document model (every value kept, tables and arrays included),
  the reading of integers as the TOML reader hands them on, and the reader's wrapper.
- `src/place.rs`: line and column of a byte position, and the framed excerpt that a schema
  error is shown with (line, column, the line itself, carets under the refused bytes).
- `src/error.rs`: the errors of loading a configuration, their texts, the command-line mode.
- `src/startup.rs`, `src/telemetry.rs`: start-up and logging decisions on plain values.
- `src/text.rs`: trimming, ASCII case folding and decimal rendering with exact specifications.
- `app/`: the program: file reading, logging set-up with `tracing`, stdout.

The schema's decoding is written out in `src/config.rs` and `src/document.rs` rather than
derived: how the TOML reader hands integers on (as `i64`, then `u64`, `i128`, `u128`), how it
reads an enum from a text or a one-key table, where its errors point and how it frames them,
and `serde`'s wording of each error. These follow `toml` 1.1 and `serde` 1.0 as they are; a
later version of either that changed them would not be noticed by the proofs, only by the
tests.
