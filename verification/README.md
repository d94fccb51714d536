# titan-ipoverlay-client

A client that lends its network to an IP overlay: it asks bootstrap nodes
for access points, asks an access point for a point of presence, keeps a
websocket open to it, and relays the TCP and UDP sessions the server opens
through that websocket.

## Layout

- `src/` — the verified library (Verus).
  - `varint.rs` — LEB128 varints and protobuf field keys, read and written by
    prost's encoding functions; the byte-level meaning of each call, and the
    roundtrip lemmas.
  - `wire.rs` — messages as rows of numbered fields: how they are written,
    how they are read (last occurrence wins, unknown fields skipped, wrong
    wire types and non-UTF-8 strings refused, with the text prost's error
    displays), roundtrip and merge laws.
  - `messages.rs` — the tunnel frame and its payloads.
  - `frames.rs` — the frames the client sends and the routing of received ones.
  - `keepalive.rs` — the keepalive state machine and the websocket reader's
    handling of events.
  - `endpoints.rs` — bootstrap list, access points, point of presence,
    websocket URL, and the in-order search over candidates.
  - `proxy.rs` — opening a TCP session, relaying reads, the write queue of a
    TCP session, UDP idle timeouts.
  - `sessions.rs` — the tables of live TCP and UDP sessions by id.
- `app/` — the program: argument handling, HTTP, websocket, sockets and
  tasks, driving the library.
- `tests/` — tests of the library.

## Wire schema

Frame (`Message`): field 1 `int32` type, field 2 `string` session id,
field 3 `bytes` payload. Types: `Command` 0, `ProxySessionCreate` 1,
`ProxySessionData` 2, `ProxySessionClose` 3, `ProxyUdpData` 4,
`ProxySessionHalfClose` 5. `DestAddr`: field 1 `string` addr. `UdpData`:
field 1 `string` addr, field 2 `bytes` data. `CreateSessionReply`: field 1
`bool` success, field 2 `string` err_msg.
