# peacock

LAN discovery, messaging and file transfer between devices, as a verified
library (`src/`) and the application that runs it (`app/`).

- `src/protocol`: the 32-byte big-endian packet header, the packet types,
  and the payload encoding (each field in order, integers little-endian,
  strings and lists with a 64-bit length).
- `src/discovery`: the registries of known peers (online/offline,
  broadcast-restricted peers) and the decisions on received datagrams.
- `src/transfer`: the transfer tracker, the decisions of the sending and
  receiving loops, the folder manifest frame and the names of received
  files.
- `src/session.rs`: the state of a running device and the operations of
  the commands and packet handlers.
- `src/messaging.rs`, `src/launch.rs`, `src/net_util.rs`, `src/text.rs`:
  incoming packets, launch arguments, address choice and text helpers.
- `app/`: sockets, files, the SQLite database and the background loops;
  events are published on a channel.

`tests/` runs the library on concrete values.
