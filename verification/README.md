# zmq_core

The core of a ZeroMQ-style messaging library, written in Verus: each
function states what it does in `requires` / `ensures`, and Verus proves it.

- `src/` is the verified library: the socket types (PAIR, REQ/REP, ROUTER,
  SERVER, SCATTER, PUSH/PULL, RADIO, STREAM, SUB), pipes, the NULL and PLAIN
  security mechanisms and their ZAP requests, the SOCKS greeting and
  requests, TCP and TIPC address parsing, the radix tree and trie of
  subscriptions, SHA-1, timers, pollers (poll, select, pollset), endpoint
  URIs, and the decisions of connecters, listeners, the reaper and the PGM
  sender. Where work has to be done
  outside (a system call, a poller), a function decides and returns what to
  do, and takes back what came of it.
- `src/**` also states, as public proof functions named `law_*`, the
  properties that hold across calls: what a read gives back of a write,
  what a round trip through text restores, what a sweep of timers keeps.
- `app/` is ordinary Rust around the library: it polls descriptors, makes
  socket pairs, starts threads, talks to a SOCKS proxy, opens and tunes TCP
  sockets, listens for TCP connections and runs the loops whose steps the
  library decides.
- `tests/` runs the library on concrete values.

Random numbers come from the `rand` crate; `app/` uses `libc` for the
system calls.

Left out: the PGM receiver. Its code is built only with the `openpgm`
feature and every type it works on (socket, session, decoder, options) is a
`()` placeholder, and the `in_event` and `unplug` it calls are not defined;
there is no behaviour of its session or decoder to state a step against.
