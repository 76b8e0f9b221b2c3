# Client Action Room API

The server behind Client Action Room: staff issue a scoped, seven-day link for
one client action (an approval, an upload, a choice or an external link), the
client acts without an account, and the audit record shows the result. A public
sample room shows all four action types and lasts at most a day.

## Layout

- `src/` is the library, verified with Verus. The rules the server applies
  to a request live here with contracts: request cookies and identities, rate
  limiting, security headers, link lifetimes and exchanges, submission checks,
  the upload checks and the scan verdict they need, deadline order, staff
  token checks (the signature and standard claims through jsonwebtoken, the
  staff claims and tenant here), plan limits and firm settings. Which rows the
  database holds, and in which order some lookups return them, is the
  program's SQL.
  - `text.rs`: character-level helpers specified on `Seq<char>`.
  - `clock.rs`: UTC instants and their RFC 3339 text.
  - `digest.rs`: token digests, checksums and random link tokens.
  - `http.rs`: cookies, rate-limit identities and policies, security headers,
    readiness.
  - `state.rs`: the rate limiter and its laws.
  - `demo.rs`: sample rooms, client links, client answers and their records.
  - `order.rs`: the deadline order of a room's actions.
  - `scanner.rs`: the malware scanner's decisions.
  - `auth.rs`: staff token settings, the usable published keys, header,
    signature and claim checks.
  - `workspace.rs`: firm workspaces, members, plans and deletion.
- `app/` is the server program: the axum router and middleware, SQLite through
  sqlx, the identity provider's keys through reqwest, and the JSON forms of the
  library's values. It runs the database, the scanner process and the key
  fetches, and asks the library what each answer is.
- `tests/` runs the library on concrete values.

The database schema is applied at startup from the directory named by
`MIGRATIONS_DIR` (`./migrations` by default).
