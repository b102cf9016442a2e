# myfocus

The core of the myfocus feed reader: an RSS/Atom reader with a Hacker News
digest and an embedded `pi` assistant. The library in `src/` holds the
reader's logic with its specifications and proofs; `app/` runs it against
SQLite, the network and the `pi` process.

## Layout

- `src/text.rs`, `src/numbers.rs`: character and integer text operations
  (trimming, splitting, searching, replacing, `i64` parsing and printing).
- `src/html.rs`: tag stripping, attribute extraction, entity unescaping and the
  OPML outline parser (folders become categories).
- `src/fetcher.rs`: fetched feed documents (parsed by feed-rs) into new
  articles, page text extraction, feed autodiscovery.
- `src/db.rs`: the article model and the statements the store runs (list and
  search queries, search planning, schema upgrades).
- `src/digest.rs`: what goes into a `pi` digest run and what is taken from its
  output.
- `src/hn.rs`: the Hacker News front page, digest batches, the writes after a
  batch, and the rounds of a digest run.
- `src/tool_cli.rs`: the read-only commands the assistant runs, and
  recommendation candidates.
- `src/pi_bridge.rs`: how the agent is started and the lines of its RPC session.
- `src/diagnostics.rs`, `src/commands.rs`, `src/search.rs`: the diagnostic
  log's records, the input checks and decisions of the reader's commands, and
  fuzzy ranking (scored by nucleo-matcher).
- `app/`: `main`, the SQLite store, HTTP fetching, the `pi` processes, the log
  file and the background poller.
- `tests/`: tests of the library's public functions.
