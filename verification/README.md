# DiamondDaggifier backend

A small backend that turns a Minecraft player's skin into a DiamondDagger590
cosplay: the top band of the player's skin (head and hat, 64 × 16 pixels) is
laid over a base skin.

- `src/` is the verified library: the per-client rate limiter
  (`ratelimit`), the decisions of the Rocket handlers (`api`), the Mojang
  and Crafatar clients' steps (`mojang`), decoded PNG images in their own
  sample layout and their RGBA conversions (`png`), the skin compositing
  (`skin_creation`), the Ashcon profile types (`ashcon`) and the warp
  handler's steps (`warp_backend`). Each handler is a step function from an
  event to the next action; the caller performs the action and hands back
  what happened.
- `app/` runs the servers and does the network, file and image I/O:
  `app/main.rs` starts the Rocket backend, or the warp backend when given
  the argument `warp`.
- `tests/` exercises the library on concrete values.
