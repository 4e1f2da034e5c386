# progenitor

Hexagonal cellular automata: hex coordinates and map storage (axial tiles,
wrapping tiles, hexagonal maps), shared cellular-automaton machinery
(transactions between neighbours, independent pairs), and the rules of
several simulations (falling sand, growth, rainfall, sunburn, tumblers,
builders, Turing machines on a hex grid, and more).

- `src/` is the library, written in Verus: every function carries a
  contract and is verified. Randomness comes from `rand` and
  `rand_xoshiro` through the small trusted wrappers in `src/rng.rs`.
- `tests/` exercises the library on concrete values.
- `app/` holds what the verified library cannot: saving and loading states
  (serde, bincode), reading Tiled maps (serde_json), computations with
  floating point (probabilities from floats, rule sampling, scores, the
  builders' neural network, Potts steps), and running task streams on a
  thread pool.

The `sim1` simulation (its `World`, cell types and rules) is not part of
the library: its cell module (`sim1/cell.rs`, and the `cell` module that
`world1` uses) does not exist, so it cannot be built or verified.
