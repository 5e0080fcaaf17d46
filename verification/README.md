# rust_svc

A small news service around the Hacker News API, with its logic verified in Verus.

- `src/` is the verified library: the DevOps keyword filter (`news`), the
  state machine that collects top stories or DevOps stories (`fetch`), the
  error model (`error`), score statistics (`stats`), the id filter of the
  plain listing (`plain_news`) and character-level text helpers (`text`).
- `app/` is the HTTP server (axum): it performs the requests that the
  `fetch` state machine asks for, serializes responses and serves the OpenAPI
  document.
- `tests/` exercises the library on concrete values.
