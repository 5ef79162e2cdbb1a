# agenda

A small chat system (messages, users, conversations) and a path-statistics
tool, organised as ports and adapters.

- `src/` is the library, verified with Verus. `domain/` holds the entities and
  their rules (validation, ids, time ordering of a conversation), the ports
  (storage, file system, connection) and the services; `application/` the use
  cases; `adapters/` what the console and HTTP adapters decide: how a typed
  line or an HTTP request is understood, what the JSON file storage computes
  from the list it read, which lines are printed. `text.rs` holds the
  character-level operations they share (Unicode whitespace, trimming, words,
  decimal and hexadecimal numerals, number parsing) and `clock.rs` the
  reading of the system clock.
- `app/` performs the I/O around it: the JSON file, the disk, the tiny_http
  server and the reqwest client, and the interactive loops of the client and
  server consoles.
- `tests/` exercises the library.
