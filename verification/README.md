# upstream

The decisions of the Upstream command line tool, which publishes and fetches patches with `git`,
and of the Upstream proxy process, which runs a Radicle peer and an HTTP API.

- `src/` is the verified library. It says what is to be done next and is told how it went:
  - `patch`, `git`, `handle`, `error`, `version`: the commands of the tool.
  - `process`, `session`: the life of the proxy process and of a session in it.
  - `seeds`, `signals`, `peer_events`, `filter`, `logging`: what happens while it runs.
  - `text`: splitting and joining text.
- `app/` does what the library asks for: it runs `git`, opens stores, serves and waits.
- `tests/` runs the library on concrete values.
