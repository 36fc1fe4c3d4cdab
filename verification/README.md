# messagepack

A MessagePack encoder and decoder whose behaviour is stated in contracts and proved.

- `src/formats.rs` — the format markers and their decoding.
- `src/bytes.rs` — big-endian byte strings, the payload layout of every fixed-width field.
- `src/encode/` — encoders; each states the exact bytes it writes (`Encode::encoded`).
- `src/decode/` — decoders; each states what it yields for any input (`Decode::spec_decode`).
- `src/ser/` — a serializer writing one value or header per call, with the integer formats
  chosen by `Exact`, `LosslessMinimize` or `AggressiveMinimize`.
- `src/de/` — a deserializer reading one item per call, with a nesting limit.
- `src/value.rs`, `src/value/order.rs` — untyped values; numbers compare and order as the
  floats and integers they hold.
- `src/extension.rs` — extensions held in a buffer of fixed size.
- `src/timestamp.rs` — the timestamp extension in its three layouts.
- `src/roundtrip.rs` — laws: what is written is read back, consuming exactly its bytes.
- `app/` — serde integration (`to_slice`, `to_vec`, `from_slice`, ...), float handling,
  extension adapters and serde implementations of the value types.
