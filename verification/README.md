# aion

The game rules of the Aion asteroid shooter as a verified library, with the
Bevy application around it.

- `src/` — the library, verified with Verus:
  - `physics` — collision resolution: projectiles damage asteroids and the
    ship, destroyed asteroids score, asteroids clash; with laws on the score,
    on batching, on body kinds and on healths.
  - `controls` — turning, firing cooldowns and thrust decisions.
  - `effects` — which effects show particles; thruster particle switching.
  - `avatars`, `archetypes`, `game` — asteroid sizes, healths, meshes and the
    mesh layout; defaults for health and damage; integer constants.
  - `play` — stepped grid positions and the rows of clashing asteroids.
  - `debug` — the debug overlay toggle and resolution presets.
- `tests/` — tests of the library on concrete values.
- `app/` — the Bevy program: systems, bundles, rendering, audio, physics
  engine, floating-point geometry and randomness. It reads input and the ECS,
  hands plain values to the library and carries out what it decides.
