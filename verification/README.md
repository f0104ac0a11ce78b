# ljos-policyd

May this command line run? The library answers for an argv with a typed
decision (`Checked`) and a hook line (`allow`, `deny<TAB>token`).

- `src/text.rs`: character-level operations (prefix, infix, last path segment, joining) with their models.
- `src/argv_table.rs`: the host deny rules, first match wins.
- `src/policy.rs`: decisions, reason codes, tokens, and which answers of the policy library are seated.
- `src/shell.rs`: the check and the hook line, and the laws that tie them together.
- `src/seat.rs`: the agent id bound in the seat.
- `app/main.rs`: the `check` / `exec` / `capnp` / `version` command line.
