# http_proxy

The decisions of an HTTP reverse proxy, verified with Verus: how a connection answers each event
on its two sockets, which application serves a request, and which instance of it.

- `src/client.rs` is a connection. Each event is handled in steps: a step names the next move
  (read, write, parse, stop) and the connection goes on with what came of it.
- `src/server.rs` is the configuration: routes, instances, orders, and the choice of a backend.
- `src/client_view.rs` and `src/server_view.rs` are the models that the contracts speak of.
- `src/laws.rs` states what holds of the proxy as a whole, `src/event_laws.rs` what holds of a
  whole event.
- `src/ready.rs` and `src/outside.rs` declare what is taken from `mio`, `uuid`, `rand` and `time`.
- `app/` performs the moves on real sockets, buffers and timers.
