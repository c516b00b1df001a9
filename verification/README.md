# netholdem

Networked Texas hold'em: the game protocol and the server core that answers
client requests, verified with Verus.

- `src/model.rs`, `src/protocol.rs`: the data model and the messages between
  client and server.
- `src/server.rs`: the server core. A client registers under a session
  number; each request it sends is handed to `Context::execute`, which
  updates the core (known clients and their seats, open rooms) and returns
  the messages to deliver; `Context::cleanup` takes a disconnected client out
  of its room, and a returning client that authenticates resumes its seat.
  Their contracts are the state machine `step` and `cleanup_step`.
- `src/client.rs`: the keys a client introduces and authenticates itself with.
- `src/primitives.rs`: X25519 (`x25519_dalek`), keyed BLAKE2b
  authentication (`orion`) and random bytes (`rand`), the calls whose
  contracts are assumed.
- `src/laws.rs`, `src/classic/laws.rs`: properties that span requests.
- `src/classic/`: a line-based server in which clients name themselves as
  players, with the two maps between clients and names kept inverse.
- `src/settings.rs`, `src/stats.rs`, `src/cli/`, `src/ui.rs`: settings,
  statistics, command lines and UI messages.
- `app/`: the server program (configuration loading, logging, the tokio
  runtime, the warp HTTP/WebSocket transport and bincode framing).
