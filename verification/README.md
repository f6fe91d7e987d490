# fps_walkthrough

Logic of a first-person walkthrough over procedural voxel terrain, verified with Verus.

- `src/` — the verified library: chunk coordinates and box walks (`chunk_pos`), a map keyed by
  chunk position (`chunk_map`), the loaded-chunk bookkeeping with its load/unload decisions
  (`chunk_manager`), voxel addressing (`voxel`), pointer lock (`cursor`), input latching and jump
  consumption (`player`) and terrain-edit decisions (`deform`).
- `app/` — the Bevy program around it: windowing, ECS systems, noise sampling, floating-point
  physics, meshing and rendering.
- `tests/` — tests of the library on concrete values.
