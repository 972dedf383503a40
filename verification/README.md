# studio-core

The verified core of a studio for signed `.aion` policy artifacts (aion-context): policy ids and
workspace layout, the line diff shown before a commit, key encoding, first-match rule evaluation,
K-of-N governance bookkeeping, key-registry timelines (register, rotate, revoke), the audit-trail
view and the copilot context. Verus verifies all of `src/`: every public function against its
contract, and private helpers against theirs where they have one (at least free of panics and
overflow). Calls into aion-context, serde_json and a few std functions stand behind small
trusted wrappers, whose contracts are believed rather than proved; each doc comment says what
its wrapper claims.

Layout:

- `src/` — the library, verified with Verus.
- `tests/` — tests of the library on concrete values.
- `app/` — the HTTP server (axum), file and keyring I/O, the model call, and the floating-point
  side of rule evaluation, around the library.

The server binds to loopback only and holds the operator's keys locally: a single-operator
demo, not a production custody architecture.
