# rdcs

The core of the RDCS remote-desktop system, written in Verus. The logic under
`src/` is verified against its contracts. What it takes from outside is
trusted, not proved: the `#[verifier::external_body]` wrappers around the
outside crates and std (HMAC-SHA256, base64, random numbers and UUIDs, the
clock, channels, error texts), whose doc comments say what each contract
claims, and the shared atomic load counter of a relay node, whose reads and
increments carry no contract.

- `src/relay/` — the relay node: the binary UDP wire protocol, HMAC-signed
  allocation tokens with replay protection, the port-pair pool, the session
  table (allocation, peers, keepalive, expiry, forwarding targets), metrics in
  Prometheus text form, and the routing of the health endpoint.
- `src/signaling/` — the signaling server: Redis key layout and lifetimes,
  the registry of connected devices, pending connection requests and
  negotiating sessions, the decision of every message handler (register,
  disconnect, heartbeat, connect, ICE exchange, relay requests, invites,
  key expiry, cross-instance delivery), relay node selection, ICE server
  configuration, the expiry and announcement of devices found on the local
  network, and the environment-driven configuration rules.
- `src/traversal/` — NAT types, ICE candidate gathering and priorities, the
  connectivity checks, the traversal simulator and matrix statistics, and
  STUN binding requests and responses.
- `src/platform/`, `src/macos.rs`, `src/display.rs` — the platform
  interfaces and their in-memory mocks, the non-macOS back ends, the display
  configuration.
- `src/video.rs`, `src/input_events.rs` — YUV 4:2:0 to BGRA conversion, the
  frame-change test that decides whether a frame is encoded, and the
  decisions behind injected keyboard and mouse input.

`app/` holds the processes around the library (`rdcs relay`,
`rdcs signaling`, `rdcs nat-report`): sockets, WebSockets, Redis, the
command line and environment, JSON encoding, and the computations that use
floating point (frame scaling, pointer coordinates, percentages).

`tests/` exercises the library on concrete values.
