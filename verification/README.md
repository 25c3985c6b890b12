# artnet-to-hass

Receives Art-Net DMX (ArtDmx over UDP) and drives Home Assistant lights through
the Home Assistant WebSocket API: black turns the lights off, any other colour
turns them on with that colour, with change-detect and a rate cap.

Layout:

- `src/` — the library, verified with Verus: the ArtDmx decoder, the bridge
  loop's decisions, configuration parsing, the Home Assistant protocol (message
  building, authentication handshake, result matching) and the reconnect
  backoff. `serde_json` and `anyhow` are called through a few trusted wrappers
  in `src/json.rs` and `src/reconnect.rs`.
- `app/` — the program: environment and socket I/O, the async tasks (UDP
  listener, bridge loop, WebSocket client with reconnection) that perform what
  the library decides.
- `tests/` — tests of the library.
