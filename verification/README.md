# jackfield

An in-process message bus with affinity routing. Producers send messages into
the bus; consumers register with routing dimensions (producer name, labels,
payload size) that either reject a message outright or rank the consumers
that may take it. Messages that no consumer takes wait in a queue capped at
`max_pending` entries (the oldest are dropped first) and are offered again
on the next drain.

## Layout

- `src/` is the library, verified with Verus. It holds the routing logic:
  the consumer registry and its ranking (`registry`), the decision machines
  that pick a consumer (`route`), the routing state of a bus with its pending
  queue (`bus`), the built-in dimensions (`dims`), the JSON dimension
  configuration read by network clients (`config`, `json`), the tables and
  the per-call and per-connection decisions of the network endpoints
  (`endpoint_table`, `connection`, `grpc_register`, `ws_session`,
  `ws_connection`), messages and their wire form (`message`, `codec`, `uuids`),
  a small synchronous bus (`message_bus`), and the rounds in which
  collected messages are handed to callbacks (`delivery`). Calls into `uuid` and
  `serde_json` go through a few trusted wrappers with stated contracts.
- `app/` is the runtime around the library: tokio channels and tasks that
  drive the routing machines, the floating-point scoring and adaptive
  weights of the dimensions, producer throttling, the WebSocket endpoints,
  and the Python bindings. There is no gRPC server here: the decisions of
  its `Register`, `Stream` and `Deregister` calls are in `src/`
  (`grpc_register`, `endpoint_table`), but no transport runs them.
- `tests/` exercises the library from outside.
