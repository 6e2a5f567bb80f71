# ticket_service

A small web service that keeps tickets for logged-in users.

- `src/` is the verified library: the error model and how each error is
  answered (`error`), the request context (`ctx`), the in-memory ticket store
  and its laws (`model`), the auth-token grammar (`token`), decimal numerals
  (`decimal`), and the decisions of the web layer: login, resolving the request
  context from the auth cookie, guarding the ticket routes, the hello page
  (`web`).
- `app/` is the axum server around it: routes, middleware, cookies, JSON,
  the shared store behind a mutex, and the request log.
- `tests/` exercises the library on concrete values.
