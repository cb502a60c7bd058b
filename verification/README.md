# harness_infra

The store behind a development harness: stories, decisions, intakes, traces,
interventions, backlog items, a tool registry and improvement proposals, kept in
SQLite and mirrored into append-only changeset logs that rebuild the database.

- `src/` is the verified library (Verus). It holds every decision the store
  makes: reading and replaying changeset operations, the operations each write
  logs (each proved to replay as the same write), dependency and resolver rules,
  story completion, proposal generation, classification and decisions, legacy
  reconciliation, audit evidence episodes, the improvement-health report,
  Markdown import, tool scans and argument encoding.
- `app/` is the SQLite, file, process and network code around it: it reads the
  store, hands the library plain values, and performs what the library decides.
- `tests/` exercises the library on concrete values.
