# iris

A toolkit for the niri compositor: a bridge daemon that owns the compositor's
IPC connection and serves a line protocol, named snapshots of workspaces, and
pinned windows.

- `src/` is the library. It decides: what an operation answers, what an event
  of the compositor does to the cache, which pins are kept, which windows are
  saved and how they are brought back. Every function has a contract, and
  Verus proves it. What relates several functions stands as a public proof
  function named `law_...`.
- `app/` is the program: sockets, files, processes, Wayland, desktop notices,
  and the JSON and TOML forms of the library's records.
- `tests/` runs the library.

Doubles are kept as their bit patterns, and points in time as numbers: the
library never computes with the former and is handed the latter.

What is taken from elsewhere on trust has a contract that says what is
claimed: `String::push`, the `Debug` formatting of strings and the lossy
decoding of UTF-8 from the standard library, the matches of a regular
expression from `regex`, and, from `serde_json` with `niri_ipc`, the request for
the compositor's events, the answer to it, and the event in a line.
