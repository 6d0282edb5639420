# Cardflow

A self-hosted project manager built around a card game: games hold decks,
decks hold cards, and each deck's hand holds up to five active stacks ranked
by priority. Jokers make a card depend on other cards; drawing a card brings
its unresolved jokers along in the same slot.

The rules of the service are a library verified with Verus:

- `src/hand.rs` — dealing, drawing and reordering the hand; the hand stays
  valid (priorities 1–5, no two alike, at most five).
- `src/jokers.rs`, `src/cards.rs` — the joker graph (reachability, no cycles),
  completing and returning cards, drawing whole stacks, the nested stack view.
- `src/records.rs`, `src/users.rs` — creating and updating records, user
  administration and first-run setup.
- `src/auth.rs`, `src/session.rs`, `src/oauth.rs` — password hashes, session
  and refresh tokens, TOTP, API tokens, OAuth 2.1 with PKCE.
- `src/mcp.rs`, `src/tools.rs` — the MCP server's side: credentials, backend
  calls per tool, and what a backend reply becomes.
- `src/text.rs`, `src/urls.rs`, `src/clock.rs`, `src/error.rs` — strings,
  URLs, timestamps and errors.

`app/` holds the two processes around the library — the HTTP backend (Axum
and SQLite) and, run with the argument `mcp`, the MCP server — and `tests/`
exercises the library on concrete values.
