# taskchampion_swift

A task list for Swift applications, backed by TaskChampion.

* `src/` is the library, verified with Verus: reading a task's properties,
  the edits that creating, updating, starting and stopping a task make,
  status and tag names, UUID text, annotation times, the filtering of
  pending tasks, and the decisions of a synchronization. Its calls into
  TaskChampion go through the trusted wrappers of `src/backend.rs` (and a
  few in `src/uuid.rs`, `src/tag.rs` and `src/text.rs`), each with a
  contract taken from that crate's source.
* `app/` is the Swift bridge: the replica with its storage and async
  runtime, the reads and commits, the server connections, and the logging.
* `tests/` runs the library against an in-memory replica.
