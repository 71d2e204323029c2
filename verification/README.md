# rust_mini_redis

A small Redis-like key-value server with publish/subscribe, whose logic is
verified with Verus.

- `src/` is the verified library: request parsing (`request`, on top of the
  character helpers in `text`), the store with lazy expiration (`stock`),
  pub/sub channels over `tokio` broadcast channels (`channel_manager`), the
  server state machine (`dispatcher`), one connection's event handling
  (`session`), answers (`reply`), command objects (`commands`: the `Command` trait,
  one struct per command, `Request::into_command` and `run`) and
  properties spanning several calls (`laws`).
- `app/` is the TCP server: it waits on sockets and channels, hands each
  event to `Dispatcher::on_client_event` and carries out the action that
  comes back. For `SAVE`/`LOAD` that action names a file: `app/` writes or
  reads it as JSON under `./data/` with `serde_json` and hands the outcome
  back as an event.

Time enters through one clock read per request; a clock that reads before
1970 counts as the epoch. The operations of `Stock` and `Dispatcher` that
read the clock, and `Dispatcher::on_client_event`, each have a twin ending
in `_at` that takes the time as an argument and whose contract is exact.
`Stock::incr_at` and `Stock::decr_at` require the update to stay within
`i64`; `Stock::incr` and `Stock::decr`, like every `Dispatcher` counter
operation, answer an overflow error there instead.
