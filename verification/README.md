# fuso

The core of a port-forwarding tunnel, written in Verus and verified.

- `src/` is the verified library: one-shot value cells (`task`), token
  allocation and the tables of waiting calls and visitors (`token`, `caller`,
  `forward`), the chunk queue behind in-memory duplex streams (`virio`),
  resumable sending (`transfer`), connector selection (`connector`), the mux
  handshake prefix (`mux`), the socks decisions (`preprocessor`), control
  commands and request handling (`rpc`, `callee`), client planning (`client`),
  the argument and environment lists of a spawned terminal (`pty`)
  and the factories (`service`).
- `app/` is a thin runtime layer around it: shared cells and buffers behind
  locks, tokio transports and the mux accepter, the wire encoding of control
  messages, and the loop that runs the port forwarder's rounds. It is not a
  complete program: the client and server services, and the drivers of the
  call tables and loopers, are not part of it.
- `tests/` exercises the library on concrete values.
