# forum

A small forum API (accounts, sessions, posts, comments) whose request logic
is verified with Verus.

- `src/` is the verified library: the session table (`session`), request
  cookies (`cookies`), records and shared operations on them (`model`),
  login and registration (`authenticate`), posts (`post`), comments
  (`comment`), pages and account requests (`handler`), and the properties that
  span several operations (`laws`).
- `app/` is the HTTP server around it (axum): it parses forms and cookies,
  reads and writes the JSON files, holds the shared state behind a lock, and
  turns the library's answers into HTTP responses.
- `tests/` exercises the library on concrete values.
