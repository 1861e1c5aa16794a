# mince

A cross-platform game-memory toolkit, split in two:

* `src/` is the library, verified with Verus. It holds the logic: the
  signature text format and its translation into byte regexes, scanning
  module memory for signatures and selecting areas of a match, reading
  little-endian addresses, the tables of memory variables, module and
  memory-region bookkeeping, the byte layout of detours and trampolines,
  and the small state machines of the menu, the toggle loop and the
  bunnyhop feature. Every public function states its result in its
  contract, except those of `StopToken` and `SharedCommand`, whose state
  is a std atomic flag shared between threads that vstd gives no value
  specification; the `law_*` proof functions state properties that span
  calls.
* `app/` is the process side: enumerating loaded modules, reading and
  writing memory in place, assembling code, changing memory protection,
  threads and dialogs. It performs what the library decides.

The regex engine (`regex`) is called from the library behind two trusted
wrappers in `src/signature.rs`; `String::from_utf8_lossy` behind one in
`src/paths.rs`.
