# channel-gate-encoder

Two proximity sensors watch a toothed target driven by a channel gate, mounted a
quarter pitch apart so that their outputs sit about 90 degrees out of phase. The
rising edge of each is captured; edges are decoded to two counts per tooth cycle;
an absolute position is kept, homed against a limit switch; and position and
direction are published on a timer that is decoupled from the edge rate.

The library under `src/` is verified with Verus: every function states what it
returns or changes, and the promises that span functions are proved as laws.

| file | role |
|---|---|
| `quadrature.rs` | the rising-edge decoder and its model |
| `events.rs` | naming, ordering and deduplicating polled events |
| `rate.rs` | revolutions, rotational speed, direction words |
| `state.rs` | the state a pulse may touch, and the published snapshot |
| `encoder.rs` | ingest, direction hints, and the derivation of a publication |
| `debug_server.rs` | requests and responses of the localhost endpoint |
| `startup.rs`, `listener.rs`, `health.rs` | decisions of the start, the pulse streams and the health probe |
| `config.rs`, `tags.rs` | what is configured and what is published, as plain values |
| `ratio.rs`, `text.rs`, `json.rs` | exact fractions, text, and JSON through `serde_json` |
| `decoder_laws.rs`, `event_laws.rs`, `encoder_laws.rs` | laws over whole runs |

Times are integers in nanoseconds (event and hint times in milliseconds), lengths
are nanometres, and every derived quantity is an exact fraction that is rounded
only when it is written out or published as a tag.

`app/` is the ordinary Rust around the library: clocks, sockets, the platform's
streams, and the schemas of the config, the tags and the UI.

## What the decode rests on

- Rising edges alternate A, B, A, B in both directions, so direction is a timing
  measurement: on each edge the gap since the other channel rose is compared with
  the period since the same channel rose.
- A gap within an eighth of a cycle of half a period tells nothing. Such an edge
  is counted in the held direction and tallied as ambiguous.
- The first two edges of a run are held, and signed when a direction is measured.
- A same-channel repeat forgets the timing, because measuring across a lost edge
  would invert the direction.
- A reversal costs four counts with the host's clock alone, and two when the
  hardware measures the period. Only a home clears it.
- With `hint_only_direction` the sign comes from direction hints alone.
