# lootlabs_reward_role

A RoleLogic plugin that grants a Discord role when a member completes a
Loot Labs task. The rules of the service are a Verus-verified library under
`src/`; `app/` is the Axum/PostgreSQL/reqwest service that runs them.

- `src/plugin.rs`: the RoleLogic plugin contract (`/register`, `/config`).
- `src/claim.rs`: the member claim flow and its landing pages.
- `src/postback.rs`: the verdict on a Loot Labs postback.
- `src/session.rs`: the Auth Gateway's signed `rl_session` cookie.
- `src/token_gen.rs`: claim tokens, guild secrets and the Loot Labs link.
- `src/rolelogic.rs`: the RoleLogic roster requests and their answers.
- `src/config.rs`, `src/models.rs`, `src/error.rs`: configuration and shapes.
- `src/text.rs`, `src/codec.rs`: string operations, and the encodings and
  primitives taken from outside crates (percent-encoding, hex, base64,
  HMAC-SHA256, constant-time comparison, randomness, the clock).
