# o11a_core

The verified core of an audit platform for smart contracts: topics and what is
known of them, scopes and source contexts, features and requirements, reports,
the graph that resolves ambiguous references, and what the server answers.

- `src/` is the library. Every function has a contract, and Verus proves it.
  - `text`, `ordered`, `sorting`, `ids`: texts, ordered maps, stable sorting,
    numbers and time stamps.
  - `domain`: topics, scopes, contexts, metadata, the audit and what is derived
    from it, paths and configuration files.
  - `solidity`, `rust`, `documentation`, `comments`: syntax trees.
  - `report`: writing, reading back and installing reports.
  - `resolution_graph`: edges, extraction, co-location, the plan for PageRank.
  - `api`, `web`: what requests read and change, and what pages show.
- `tests/` runs the library on concrete values.
- `app/` is the server around it: HTTP, WebSocket, SQLite, files, JSON, and the
  floating-point iteration of PageRank.

Trusted of the standard library: `String::push`, which appends one character,
and the calls that read the system clock (`SystemTime::now`, `duration_since`
and `Duration::as_secs`), of which nothing is claimed.
