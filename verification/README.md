# leptos_workers

Web workers for Leptos applications: a worker function, marked with the
`#[worker]` attribute, runs off the main thread in a pool of web workers, as
a future, a stream, a callback run or a duplex channel.

## Layout

- `src/` is the verified library (Verus):
  - `pool` — the pool's bookkeeping: the first free worker takes a request,
    the pool grows when every worker is busy (the new worker is busy with the
    request it was made for), and an abort handle acts only on the task that
    produced it, also after its worker was replaced;
  - `protocol` — message types, which handler a worker runs for a message,
    and the receiving sides of streams and channels, which end at a null
    message;
  - `transfer` — the stores that carry transferable objects beside the
    serialized data, and the proof that each id gives back what was stored;
  - `tokens`, `analyze`, `naming` — what the `#[worker]` attribute decides:
    matching types against patterns such as `Receiver<@>`, the flavour of a
    worker function, its parts and its name;
  - `paths` — where the page's glue script and module are found;
  - `ids`, `errors`, `web_worker` — identifiers, creation failures, and the
    worker's registered name.
- `tests/` runs the library on concrete values.
- `app/` is the browser side: creating workers, posting messages, the
  executors, and the code that the attribute generates with `syn` and
  `quote`.
