# Loodsen Boekje

A website to keep track of the ways a beer has been opened.

- `src/` is the library, verified with Verus: the rules on usernames,
  passwords and the `who` field of an entry, registration and login checks
  (passwords are hashed with bcrypt), the roles and what each may do, the
  choice between local accounts and an Authelia reverse proxy, and the role
  that follows from a user's Authelia groups. `src/laws.rs` holds the
  properties proved across these functions.
- `app/` is the web server around it: an axum server over a SQLite database
  (sqlx), with sessions from tower-sessions, pages rendered on the server from
  the library's view decisions, JSON endpoints for the forms, and a loader for
  `loodsenboekje.csv` (`load-data` as first argument).
- `tests/` runs the library on concrete cases.
