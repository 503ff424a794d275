# netty

A client HTTP/3 connection over an external QUIC transport, with HTTP Datagrams,
tunnels and streaming bodies. The decisions of the connection are a Verus library; a
thin crate around it performs the I/O.

- `src/h3/` decides what a connection does: admission and framing of requests
  (`request`, `length`, `exchange`), both directions of a transfer (`upload`,
  `download`), tunnels (`tunnel`), the Datagram queues and their driver (`datagram`,
  `packet`, `driver`) and the rules of the transport adapter (`transport`).
- `src/conn/`, `src/rt/` hold the handles and IDs that callers see.
- `src/body/` is the response body and the channel that feeds it.
- `src/bench/`, `src/interop/` measure the client and observe its traffic.
- `src/buffer.rs`, `src/h3/fields.rs`, `src/h3/packet.rs` state what is believed of the
  `bytes`, `http` and `http3-datagram` crates.
- `app/` polls the transport, the bodies and the tasks that wait, and hands what
  happened to the library.

Each module states its types as mathematical values (`...View`) and its operations as
functions on them. Properties that span several operations are public proof functions
beside them, for instance in `src/h3/datagram/laws.rs`.
