# rustcraft

The verified core of a voxel game server, written in Verus. Contracts state
what the functions compute, and Verus proves them. Where the outcome rests on
random rolls (flora, chunk generation), a function that takes the rolls as
arguments states the result exactly for each of them, and the function that
draws them states what holds whatever was drawn.

## Layout

- `src/` — the verified library.
  - `geometry`, `coords`, `boundary`, `riverbed`: integer positions, the split
    of global block positions into chunk and local parts, chunk faces and the
    index walks over padded chunk storage.
  - `blocks`, `block_map`, `flora`, `rng`: block kinds and their properties,
    the block map of a chunk, and the generation of trees, cacti and flowers
    from random rolls.
  - `sleep`, `sleep_manager`, `queues`, `surface`: water bookkeeping — which
    chunks sleep, the queues of pending water work, surface cells and their
    patches.
  - `packed`: the byte layout of packed block indices.
  - `broadcast`: which chunks go to a player in a world update, and the
    record of which players each chunk was sent to.
  - `gravity`, `lod`, `raycast`, `world_data`, the system-set
    enums: smaller pieces of game logic and shared data.
- `tests/` — tests run against the compiled library.
- `app/` — the server executable and what rests on floating point: command
  line and socket, water volumes with their lateral flow and the inflow into
  freed cells, ray casting, the reach and overlap measures of block
  interactions, the widened render distance of world updates, column plans
  from float flora chances, and serialization of library types.
