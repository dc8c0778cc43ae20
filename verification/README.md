# rubiks

A Rubik's cube of any size, its turns and scrambles, and the environment in
which a reinforcement-learning agent learns to solve a 2x2x2 cube. The library
is written in Verus: each function states what it does in its contract, and
Verus proves the code against it.

## Layout

- `src/face.rs`, `src/turn.rs`: faces as square grids of tiles, rotations of a
  face, the edges a turn cycles.
- `src/cube.rs`: the cube as six faces, turns, scrambles, solved checks.
- `src/model.rs`: the mathematical view of a cube (six grids of colours) and
  where each tile goes when a face is turned.
- `src/geometry.rs`: where each tile sits in space, and the law that every
  turn rotates one layer of the cube rigidly about the turned face's axis.
- `src/laws.rs`, `src/balance.rs`: what holds of every turn: a turn undone
  gives back the cube, four quarter turns are none, turns keep the number of
  tiles of each colour, a turn of a solved cube larger than 1x1x1 leaves exactly
  the turned face and its opposite face a single colour, and the 24 border
  lines of the faces are each cycled by exactly one face.
- `src/count.rs`, `src/sums.rs`: counting tiles of a colour, and finite sums.
- `src/env.rs`: the learning environment: one-hot encoding of a cube, the
  facelet score, steps and resets, and the replay buffer.
- `src/training.rs`: the integer decisions of the training loop: when to
  learn, when to copy the critics, how the curriculum advances, and the tally
  of an evaluation run.
- `src/config.rs`: the training settings and how each is read from text.
- `src/random.rs`: the random choices, made by the `rand` crate.
- `app/`: the training program around the library: environment variables,
  tensors and networks (`tch`), logging (`tensorboard-rs`).
- `tests/`: the tests of the library.
