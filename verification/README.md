# HornetMQ

A job queue on Redis that speaks the BullMQ wire format, with its rules proved in Verus.

`src/` is the library. It decides what is sent and what a reply means, from plain values:

- `kernel/`: jobs and their options, backoff, retries, stalls, events
- `queue`, `queue_keys`, `scripts/`, `commands`: the keys, scripts and commands of a queue
- `reply`: what the server answers
- `processor`, `worker`, `stall_checker`: what a worker does next
- `worker_macro`: the options and the expansion of the `#[worker(..)]` attribute
- `msgpack`, `text`: the packed arguments of the scripts, and helpers for text

`app/` holds the connections, the clock, the threads and the JSON: it does what the library asks
for and hands back what happened. It reads the Lua scripts of BullMQ from
`./src/scripts/commands`.

`tests/` runs the library on plain values. No Redis server is needed for them.
