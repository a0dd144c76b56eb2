# kafql_store

An in-memory, log-compacted store of keyed messages, with a REST API over it.
A Kafka consumer writes each keyed message to the store (a newer record
replaces an older one, a message without a payload removes its key), and the
HTTP API lists, reads, creates and deletes records.

- `src/` is the verified library: the store (`store`), the records (`record`),
  what each message and each API request does (`consumer`, `api`), the topic
  configuration parser (`config`) and the clock (`clock`).
- `app/` is the program around it: command-line options, the Kafka client, the
  HTTP server, and the serde copies of the library's types.
- `tests/` runs the library on concrete values.
