# strom

The decision-making core of the Strom media-flow backend, written in Verus:
the functions in `src/` carry contracts that the verifier proves, except
for a few small wrappers around calls into `std` and outside crates, whose
contracts are trusted rather than proved: `push_char` (`String::push`),
`hash_device_key` (`DefaultHasher`), `to_lowercase` (`str::to_lowercase`),
`parse_routing_json` (`serde_json::from_str`), `new_uuid_string`
(`uuid::Uuid::new_v4`) and `local_now_rfc3339` (`chrono::Local::now`).
Where such a result takes more than a few lines to describe, the contract
names it instead (`device_key_hash`, `lowercase`, `routing_json`); every
property proved about the callers rests on these trusted contracts.

## Layout

- `src/text.rs` – string and number helpers (`str::parse`, `trim`, decimal
  and hexadecimal notation) with their specifications.
- `src/property.rs` – block and element property values and `StrMap`, a map
  with string keys viewed as a mathematical `Map`.
- `src/pads.rs` – the pads a block exposes to a flow.
- `src/plan.rs` – element plans: the element ids a block creates, the
  static links between their pads, whether it watches the bus, and the
  element settings it fixes.
- `src/builtin.rs` – the registry of built-in block kinds.
- `src/audiorouter.rs` – channel routing matrix of the audio router: JSON
  parsing, route counts, unrouted outputs, deinterleave pad plans and the
  block's element plan.
- `src/mixer.rs` – the audio mixer: pads, settings decisions, and the exact
  graph of elements and links it builds from its solo mode and aux send
  properties, with proofs that the graph is closed and of its size.
- `src/mpegtssrt.rs` – MPEG-TS/SRT output: pads, sink settings, codec
  chains and the element plan by track counts.
- `src/whep.rs`, `src/whip.rs` – WebRTC blocks: settings, endpoint ids, caps
  decisions, element plans, pad routing, keyframe throttling and server
  recreation.
- `src/loudness.rs`, `src/effects.rs` – the loudness meter (settings and
  plan) and live effects.
- `src/device.rs` – device discovery: categories, ids, provider inference
  and the device registry.
- `src/flows.rs` – the flow store: reads with runtime status, saves,
  deletes, debounced writes, start/stop bookkeeping and write-back of live
  changes.
- `app/` – the I/O side: event broadcasting over `tokio`, JSON forms of the
  library's values, and the asynchronous flow service.
- `tests/` – tests run against the compiled library.
