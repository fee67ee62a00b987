# EmpireAnts

An ant-colony foraging simulation. Ants leave a nest on a grid world, follow
food and home pheromone trails scored by an ant-colony-optimisation policy,
carry food back, and are driven by a mailbox-based actor runtime with
backpressure and supervised restarts. Runs export CSV artifacts and a
Prometheus exposition.

## Layout

- `src/` — the verified library (Verus):
  - `world` — the grid, its mathematical model (`GridModel`) and its laws
    (read after write, nest moves, food conservation under harvest, exact
    4-neighbourhoods, painting of regions).
  - `ant` — the discrete ant state and its candidate moves; the actor
    runtime (`ActorRuntime::gather_updates`) with its per-tick semantics and
    the backpressure, restart-budget and accounting laws.
  - `simulation` — ACO strategies and the exploration hash, the benchmark
    profiles and world, the validation scenarios, worlds and discovery /
    convergence ticks, and the foraging transition applied per update (with
    food conservation).
  - `observability`, `render`, `web` — the Prometheus exposition, the frame
    summary, and the HTTP routing, heads and bodies of the two servers.
  - `text` — decimal rendering and string comparison used by the above.
- `app/` — the program: pheromone fields, scoring and energies (floating
  point), timing, file export, sockets and threads.
- `tests/` — tests of the library.
