# crane_socket

A relay that lets two peers meet in a room and exchange messages over
WebSocket, TCP or UDP, with an optional Noise encryption layer between the
peers. The library under `src/` holds the logic, verified with Verus:

- `message/`: the binary protocol between peers and the relay (tags, lengths,
  UTF-8 text), the WebSocket forms of its messages, and the peer messages that
  a connection hands to its user.
- `framing.rs`: how stream frames and datagrams are cut and checked.
- `registry.rs`: the rooms of the relay and what each request does to them.
- `actors.rs`: what a transport does with arriving bytes, and its error counts.
- `session.rs`: what a peer makes of the relay's replies.
- `config.rs`: connection configurations and the base64 tokens that carry them.
- `crypto.rs`: the plaintext framing under encryption, the transport phase and
  the handshake of a Noise session, over `snow`.

`app/` is the program around it: sockets, tasks, timeouts, logging, serde and
the error types with their texts. `tests/` runs the library on concrete values.
