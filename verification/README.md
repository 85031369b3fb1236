# workmux (verified core)

The decision logic of three workmux commands, written in Verus and proved
against its contracts:

- `src/workflow/identity.rs` — the identity lookup behind `workmux identity`:
  a step function that, given the replies collected so far, names the next git
  or multiplexer query or reports the handle's identity.
- `src/workflow/panes.rs` — the live-pane snapshot, the pane ids of a window or
  a session, and their order of issue.
- `src/command/identity.rs` — the output fields and the text rendering of an
  identity.
- `src/command/spawn.rs` — which pane `workmux spawn` may respawn.
- `src/command/codex_quota.rs` — recognising a Codex quota interruption on a
  captured screen.
- `src/text.rs` — character-level text helpers.

`app/` holds the input and output: it performs the queries, respawns the pane,
and prints JSON through serde.
