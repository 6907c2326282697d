# Kanade

Kanade is a small CI service: a server that receives push webhooks from a
Forgejo instance, turns the repository's pipeline script into pipelines of
jobs and steps, and hands the jobs to build agents, which run them and report
back while streaming their logs.

The crate is written in Verus. `src/` is the verified library; every function
there carries a contract that Verus proves:

- `status`, `lifecycle` — the statuses of pipelines, jobs and steps, and the
  state machine that agents drive (taking the oldest ready job, reporting
  steps and jobs finished, settling the pipeline), with its laws.
- `webhook` — which webhook requests are accepted, the HMAC signature check,
  and the rows a push inserts.
- `crypto` — the AES-256-GCM store for secrets, and the law that decryption
  gives back what encryption was given.
- `forge`, `auth` — the Forgejo addresses and requests, the OAuth sign-in
  decisions, stored forge tokens and their refresh, API keys and agent tokens.
- `listing`, `realtime` — how stored rows become API answers, paging, secret
  scopes, and the realtime channels and log streams.
- `agent` — the agent's polling, progress reports and log batching.
- `codec`, `text` — the calls into the encoding, hashing and URL crates, each
  behind a small trusted item, and verified string helpers.

`tests/` runs the library on concrete values. `app/` is the program around
it (HTTP server, database, Valkey, the agent's HTTP and websocket clients).
It calls the library for the rules above, including the signing and
checking of tokens; which rows a user may read is decided by its SQL
queries and the database's row-level security.
