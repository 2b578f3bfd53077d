# dojo_introspect

Introspection of Dojo worlds on Starknet: reading model schemas, type
definitions and world events from felts, computing selectors, and keeping
the tables of a world. The library under `src/` is verified with Verus;
`app/` holds what touches the outside world.

- `felt` — Stark field elements as two 128-bit limbs.
- `codec` — the felt encodings (short strings, byte arrays) as spec functions.
- `selector` — selectors of tags, namespaces and names; `utils::selector`
  gives the same for tooling, with malformed tags excluded.
- `typedef`, `dojo_serde` — introspection type definitions and their reading
  from the Dojo layout, legacy or not.
- `types` — Dojo type definitions as the world serializes them, values read
  according to them, world events, and the decision of a schema fetch.
- `events`, `world_events` — world events read from keys and data.
- `manager` — registration and lookup of tables.
- `outside` — the calls into `starknet`, `starknet-crypto` and
  `cainome-cairo-serde`, with the contracts they are trusted to meet.

`app/` has the JSON table store, the provider-backed schema fetcher, and
serde and error-message copies of the library's types.
