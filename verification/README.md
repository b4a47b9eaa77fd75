# planpool

A small pool of expiring static HTML plans: agents upload a plan and get back
a shareable URL; the plan is served until its TTL runs out, then disappears.

- `src/` — the verified library (Verus): plan IDs (`id`), the store's
  decisions and file naming (`store`), settings validation (`config`), the
  HTTP API's decisions (`api`), the client's requests and answers (`client`),
  the `pp` command line's text handling (`cli`), shared bodies (`types`) and
  text helpers (`text`).
- `app/` — the programs around it: the axum server, the file I/O of the
  store, configuration from the environment, and the `pp` CLI over ureq. One
  executable acts as `pp` when invoked under that name, as the server
  otherwise.
- `tests/` — tests of the library.
