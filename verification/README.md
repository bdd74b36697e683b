# samotop

An SMTP server library whose logic is proved with Verus, and a small server
program around it.

## Layout

- `src/grammar`: the SMTP grammar as spec functions over characters
  (`rules`), the parser that follows it (`smtp`), and a parser value that can
  be handed around (`parser`).
- `src/model`: commands, replies and controls; the SMTP session state machine
  (`session`); the typed SMTP machine and its states (`machine`, `state`,
  `act`); the TLS mode and its switch (`tls`).
- `src/codec`: a codec that turns bytes into session items, cuts mail data at
  the lone dot, and writes replies.
- `src/protocol`: the line and mail data codec (`smtp`, `line`), the reply
  serializer (`writer`), the stream steps around the session (`peer`,
  `connection`, `parse`, `machine`, `mail`, `fuse`, `through`), the
  transports (`transport`, `stateful`) and the TLS connection states (`tls`).
- `src/server.rs`: the ports and the name a server is set up with.
- `app/main.rs`: the server program: arguments, sockets, threads and the
  console mail service.
- `tests/`: the tests.

Each public function states its result in `ensures` over the models of its
arguments; the proof functions named `lemma_*` state what holds across calls.
