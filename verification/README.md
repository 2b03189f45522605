# twelve_client

A client for the Twelve point-of-sale API, written in Verus.

- `src/` is the verified library: the `.env` reader, the signed request
  headers (request token and SHA-256 request signature), endpoint URLs,
  request bodies for new users, accounts and cards, the choice of an account
  by typed number, and the rows that API replies turn into.
  `src/platform.rs` holds every call into the standard library or an outside
  crate (`chrono`, `rand`, `sha256`, `reqwest`) together with what the
  verified code assumes of it.
- `app/` is the program around it: HTTP calls with `reqwest`, JSON decoding
  with `serde`, the SQLite database with `rusqlite`, terminal input and
  output.
- `tests/` runs the library on concrete values.
