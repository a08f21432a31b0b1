# kv

The verified core of a small key-value server with publish/subscribe.

- `src/pb.rs`: requests, responses, values and their models.
- `src/error.rs`: the errors and how each is answered (status and message).
- `src/storage/`: the `Storage` contract, `MemTable` (an in-memory store),
  and the flat key layout used by RocksDB-style stores.
- `src/service/`: the command service (`dispatch`), the laws that relate the
  commands, and the publish/subscribe `Broadcaster`.
- `src/network/`: the decisions of the server and client ends of a connection.
- `src/query.rs`: the output-format decision of the query front end.
- `app/`: the server and client programs: TCP, framing, protobuf encoding,
  and the sending of published messages.
