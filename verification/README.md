# cccc_relay

The decisions behind a group of agents that is led by a model in a web chat: who has to act on a
finished report, what a conversation may do, when a prompt is typed into a page, and what is left
alone. The library holds these rules as functions on plain values, with contracts that Verus proves.
Files, browsers and the daemon are outside of it.

- `src/relay/`: handoffs, decisions, reminders, and who is responsible now.
- `src/connectors/`: the store of connectors, and the binding of conversations to them.
- `src/delivery/`: visits to a conversation, from the prompt to its receipt.
- `src/onboarding.rs`, `src/onboarding_flow.rs`, `src/gateway.rs`: how a conversation comes to its
  group, and which calls it may make.
- `src/headless.rs`, `src/supervisor.rs`, `src/probe.rs`, `src/context.rs`: turns of local members,
  the order of visits, stalled pages, and the notes of a group.
- `src/text.rs`, `src/order.rs`, `src/lists.rs`, `src/json.rs`, `src/json_write.rs`, `src/paths.rs`,
  `src/time.rs`, `src/failure.rs`, `src/model.rs`: what the rest is written with.

Functions that end in a step or a plan name what is done outside before the next one; `app/` does
it. Files named `laws.rs`, `src/relay/repeat.rs`, `src/relay/course.rs`, `src/delivery/once.rs`,
`src/connectors/lasting.rs` and the proof functions at the end of other files state what holds across
several functions.

What is not proved is what other crates compute. Each such call stands in one small function whose
comment says what is claimed of it: digests, checksums, base64, JSON string literals, timestamps and
random identifiers.
