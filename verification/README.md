# fastio

Explicit file I/O building blocks, verified with Verus.

`src/` is the verified library:

- `range` – byte ranges (`ByteRange`, ordered by a type invariant), request
  indices, file ranges and range reads.
- `write` – positioned write slices and `WriteSlices`, a batch accepted exactly
  when no non-empty slice ends past `u64::MAX` and no two non-empty slices
  overlap; a model of files proves that such a batch gives the same file in
  any write order.
- `ring` – the scheduler behind ring-driven positioned I/O: chunking of a
  buffer, submission under a depth bound, partial-completion resubmission,
  and ring option validation.
- `mmap` – windows into shared memory maps and the planning of page-aligned
  range maps.
- `buffer` – `Bytes`, owned buffers backed by a pool, a memory map or a `Vec`.
- `positioned`, `options`, `error` – small decisions of the backends, open
  flags and the library's error type.

`app/` holds the file backends (synchronous, memory-mapped, `io_uring` and
Tokio). They perform the I/O and call the library for every decision.
