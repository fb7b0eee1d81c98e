# fault_manager

A fault reporting library and a diagnostic fault manager, written in Verus.

Applications report faults through reporters. The fault manager receives the
records, filters them, keeps the state of every fault across operation cycles and
restarts, lets faults age, and answers queries of diagnostic tools.

## Layout

- `src/common`: the types that both sides share. Fault identifiers, descriptors and
  records, catalogs and their hashes, debounce filters, texts and vectors of fixed
  capacity, and the query protocol.
- `src/fault_lib`: the reporter side. Reporters, enabling conditions, the bounded
  queue of events, and the decisions of the worker that sends them and tries again.
- `src/dfm_lib`: the fault manager. Processing of records, aging, operation cycles,
  storage of fault states, queries, and the decisions of its main loop.
- `src/pipeline.rs`: what holds from a report up to the answer that a tool gets.
- `src/model.rs`: an older, self-contained model of a fault catalog.
- `app`: the program around the library. Threads, clocks, inter-process
  communication, the store on disk and the command line.
- `tests`: tests of the library.

Every function states in its contract what it returns and changes. Properties that
relate several functions are proof functions whose names start with `law_`.

What is believed without proof is said above each function that calls into another
crate: the fixed-capacity containers of `iceoryx2-bb-container`, SHA-256 of `sha2`,
and a few functions on characters and strings of the standard library.
