# Dig Key-Value Store

A key-value cache with two layers: an in-memory LRU cache and persistent storage in SQLite. Values
can be given a time to live, and the memory that they take is limited. With a cleanup interval,
expired keys are removed whenever it has passed.

## Layout

- `src/` holds what the cache decides, verified with Verus: what stays in memory and what is
  evicted, which statements go to the database, when they are retried, and what each answer leads
  to. It performs no input or output; each step says what to do next and is resumed with what came
  of it.
- `src/laws/` holds what is proved of the cache as a whole: that a value that was set is read back
  until it expires or is set or deleted anew, that nothing expired or deleted is returned, that the
  memory limit is kept, and that calls end once the database is no longer busy.
- `app/` carries the decisions out: it talks to SQLite through sqlx, waits with tokio, and offers
  the asynchronous `Cache` and its Node.js binding.
- `tests/` runs the library against an SQLite database in memory, and its decisions one by one.

## Guarantees

The database is taken to do what the statements say (`src/table.rs`). Of the `lru` and `sqlx` crates
and of the standard library, only what the doc comments of the few trusted functions in
`src/lru_store.rs`, `src/error.rs` and `src/clock.rs` state is relied on.

Times of expiration are whole seconds. A value expires when more seconds have passed than it was
given. A time to live in milliseconds, as the Node.js binding takes it, is rounded up to whole
seconds, so that no value is gone before its time has passed. While the clock stands before the Unix epoch, every value counts as expired.
