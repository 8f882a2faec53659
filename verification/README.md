# lanjing

The verified core of the LanJing rule runtime, written in Verus.

- `src/` is the library, verified by Verus. Its public functions carry `requires`/`ensures`
  contracts that Verus proves (a few private helpers carry none): capability policy and grants, URL templating, SSRF target classification
  and pinning, effect witnesses and their integrity checks, durable captures and replay
  checks, the live and replay steps of an effect (store before advance; replay only from
  a matching archive record), plan validation and execution paths, subgraph selection and
  ordering, the mapper's reading of records and play lists, the session event stream and its catch-up, and the plan cache. Calls into `blake3`, `url`, `serde_json` and `uuid`
  go through small trusted wrappers whose contracts are stated in their doc comments.
- `tests/` exercises the library on concrete values.
- `app/` is the runtime shell: DNS resolution, the reqwest and QuickJS adapters, canonical
  hashing through serde, the archive and handler calls of an effect, and the loops that
  perform each step the library decides.
