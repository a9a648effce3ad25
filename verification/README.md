# feedrv3

The verified core of a feed poller and its companion reader service.

- `src/` is the library, written in Verus: every function there carries a
  contract and is proved against it.
  - `config` — the TOML configuration bundle once it has been read: layered
    feed and watch defaults, categories and their domains, the checked feed
    and watch sources, and the file-system path decisions.
  - `scheduler` — what a fetch decides: whether a body changed, which items a
    watched HTML page yields, the payload to store, and when a feed is marked
    as failing.
  - `feed`, `cookies`, `http`, `hashing`, `time` — feed documents, the
    `Cookie` header kept per source, request outcomes, SHA-256 in hex, and
    instants in a time zone.
  - `metrics` — runtime statistics and their Prometheus text.
  - `server` — the reader service: configuration, errors, authentication,
    SQL text, request checks, the entry queries and the account decisions.
  - `text`, `sorted`, `entries` — character-sequence and keyed-list
    utilities the rest is stated over.
- `app/` is the program around it: command-line handling, reading files,
  the database and the HTTP listener.
- `tests/` runs the library on concrete values.
