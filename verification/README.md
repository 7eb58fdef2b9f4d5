# bevy_uspsa

A first-person practical-shooting (USPSA) range. The rules of a match are a
Verus-verified library; a Bevy program renders it, reads input and plays sound.

## Layout

- `src/` — the verified library.
  - `target.rs`: target kinds, scoring zones, target faces and what a hit does.
  - `scoring.rs`: Minor scoring (A = 5, C = 3, D = 1, best two hits per paper,
    -10 per mike and per no-shoot hit) as a spec and a verified tally, with
    the scoring laws as proof functions.
  - `aim.rs`: whether a shot's crossing lies on a face, paper zones, and the
    nearest-hit rule.
  - `enemy.rs`: the outlaws — strafing within their patrol, timers, taking hits.
  - `layout.rs`: random stage layouts with no two targets crowding each other.
  - `game.rs`: the match — phase machine, clocks, shooting, reloading, the
    outlaws' volleys and scoring; `controls.rs`: buttons, trigger and HUD readouts.
  - `stage.rs`: a flat, tap-to-shoot board stage.
  - `wav.rs`, `noise.rs`: the WAV container and the integer noise generator
    used by the sound synthesis.
  - `random.rs`: the two calls into `rand`, behind `external_body` functions
    whose contracts state what the crate documents.
- `tests/` — tests of the library.
- `app/` — the Bevy program: meshes, HUD, input, camera, ray casting and
  sound synthesis (floating point).

Time is kept in microseconds and distances in micrometres (board positions in
thousandths of a pixel), so the library's rules are integer arithmetic.
