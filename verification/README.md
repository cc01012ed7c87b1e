# mpc

The context of a node in an asynchronous multi-party computation that mixes a batch of inputs.

- `src/` is the verified library. `address` holds socket addresses and IPv4 text, `node` the
  configuration of a node and of the services beneath it, `params` the sizes of a computation,
  `context` what a node starts with and the messages it sends, `run` its event loop, and `peers`
  the address books of the `fnv` crate.
- `app/` is ordinary Rust around it: sockets, channels, tasks and signals. What it needs from the
  network, the services, the field and the protocol's handlers is the trait `Protocol`.
- `tests/` runs the library.

What a node computes and decides is in the library. `Context::spawn` says what to open and what to
start; `Context::run` takes one event and says what to do about it; `Context::broadcast` and
`Context::send` say what to send, and `Context::deliver` hands the messages out one by one and keeps
the handle of each. `check_launch` and `Context::can_run` test what `spawn` and `run` require.

Two things are left to `app/`: it passes `SERVICE_BYZ` to every service that it starts, and where a
service fails to start it logs the failure and starts the rest. The text of the parties' addresses is
read and written there too.
