# shadowquic

Wire formats, identifier allocation and session bookkeeping of a QUIC-based
proxy (SOCKS5 inbound, SUNNY-QUIC transport), verified with Verus.

- `src/` is the verified library: the SOCKS5 and SUNNY-QUIC message
  encodings and their round trips, the frame reader, the id generators and
  allocators, the buffer pools and arenas, the session tables, the
  connection pool, the ring buffers, and the decisions the connection
  handlers take on each frame they read.
- `app/` holds what Verus does not see: sockets, tokio tasks, the shared
  process-wide state behind locks, and the QUIC transport traits.
- `tests/` runs the library on concrete values.
