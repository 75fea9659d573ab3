# postcard (verified subset)

A Verus-verified subset of the postcard wire format and the property checks that
exercise it.

- `src/varint.rs` — varints: encoding, reading with per-type limits, round-trip lemmas.
- `src/zigzag.rs` — zig-zag mapping of signed integers.
- `src/ser.rs`, `src/de.rs` — serialization into output slices and vectors, and
  deserialization of `u8`, `u16`, `u32`, `i128`, lengths, byte strings and strings.
- `src/roundtrip.rs` — every encoded value reads back as itself.
- `src/framing.rs` — COBS framing (through the `cobs` crate).
- `src/accumulator.rs` — `CobsAccumulator`, which collects framed messages arriving in
  chunks, with its exact behaviour and laws.
- `src/max_size.rs` — the maximum encoded size of byte vectors, proved tight.
- `src/heapless_vec.rs` — `heapless::Vec` as serialization input and output.
- `src/etna.rs` — the property checks, each proved to pass on every input.
- `app/main.rs` — a command-line runner that drives the checks with property-testing
  libraries.
