# ygopro

A client for the YGOPro duel protocol. The library under `src/` is verified
with Verus; `app/` is the program around it (network, logging, files).

- `wire` — little-endian integer encodings (the protocol's byte order).
- `utf16` — names, passwords and chat text as UTF-16 buffers: writing a
  string into a fixed buffer and reading text back from bytes.
- `packet` — packet framing (`YGOPacket`), message kinds and errors.
- `traits`, `structs` — the message bodies: laid out as bytes (client to
  server) or read from bytes (server to client).
- `deck` — reading the sections and card codes of a deck file, line by line.
- `session` — the requests that ask to join a room and what each received
  packet means while the client waits to be let in.

`app/main.rs` connects to a local server, sends the join requests and waits
for the room's description.
