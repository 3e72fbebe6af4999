# io-socket

I/O-free, resumable socket coroutines, verified with Verus.

A coroutine never touches a socket. Each call of `resume` either
finishes or hands out a `SocketInput` request (read into this buffer,
write these bytes); the caller performs it and resumes the coroutine
with the matching `SocketOutput`.

- `src/io.rs`: the requests and outputs, with their mathematical models.
- `src/coroutines/`: the coroutines. `read` does one read, `write` does
  one write, `read_exact` reads exactly N bytes, `read_to_end` reads
  until end of file. Each `resume` is specified by a spec function over
  the models (`read_answer`, `write_answer`, `exact_outcome`,
  `to_end_outcome`), and the proof functions in `read_exact.rs` and
  `read_to_end.rs` state what holds over whole runs: requests never
  overshoot the target, and the bytes come out complete and in order.
- `src/text.rs`: the decimal text behind the `describe` methods, which
  give short descriptions (sizes, not bytes) of requests, outputs and
  coroutines.
- `app/`: the runtimes that do the actual I/O (std streams, UDP
  sockets, Tokio streams) and the error types with `std::error::Error`.
