# LumeHub

A controller for addressable LED strips, driven over MQTT and integrated with
Home Assistant. Its logic is written in Verus and proved against its
contracts.

## Layout

- `src/` — the verified library:
  - `store/` — zones, user effects, scenes and their layers, the active
    scene, and the stack of saved device states; `store/laws.rs` states what
    the operations promise together (a row written is read back, listings
    come in order, a loaded scene reads back as the scene, the stack is last
    in, first out). New rows take the ids their caller hands in, and the
    stack and the timed effects take the time as an argument: `app/` draws
    random UUIDs and reads the clock.
  - `topics.rs`, `handlers/` — the MQTT topic names, the routing of a topic
    to its handler, and what each command does to the store and asks of the
    light and of the broker.
  - `runtime/` — the light's running state and how a reload of the active
    layers is decided.
  - `publish.rs`, `discovery.rs`, `session.rs` — what is published, the
    Home Assistant discovery configuration, and how the broker is joined;
    `session.rs` also proves that the subscriptions let through exactly the
    topics that are routed to a handler.
- `tests/` — tests of the library on concrete values.
- `app/` — the program around the library: the MQTT connection, the SQLite
  file behind the store, the state file, and the JSON forms of the commands
  and payloads.
