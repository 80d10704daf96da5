# mlua_util

Utilities for a host that drives a Lua interpreter through its C API: stack space and stack
guards, protected calls, userdata that the host owns, metatables, and host errors and panics that
travel through Lua and come out on the other side.

`src/` is the library, verified with Verus.

- `value` and `state` hold the plain values and the mathematical model of an interpreter: what a
  C function sees of it, and the answers that the interpreter is going to give (memory, the
  results of foreign functions, the texts of tracebacks).
- `api` is the C API as a trait, `Lua`, with a contract for every call. A Lua error in flight is
  an `Err(Raised)`.
- `stack`, `text`, `failure`, `protect`, `userdata`, `meta`, `metatable`, `callback`, `registry`
  and `calls` are the utilities.
- `laws` states what holds of them together.
- `slot`, `cache` and `machine` make up an interpreter in memory that keeps the contract of
  `Lua`. The tests run on it.

`app/` puts the library on a raw Lua 5.4 state.
