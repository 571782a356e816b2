# engine

The rules of a roguelike that doubles as a village simulation, as a
verified library, and the game around it.

- `src/` holds the game's logic with its contracts, checked by Verus: the
  map grid and its indices, the turn cycle and the menus, player commands,
  the effect queue, combat, items, fire, the map builders, spawning, the
  villagers' labors, the monsters' and fish's choices, map indexing, sight
  and what the camera shows.
- `tests/` runs the library on concrete cases.
- `app/` is the game itself: the window and keyboard (rltk), the entity
  store (shipyard), drawing, and the parts that work in floating point
  (utility scores of the villagers' choices, distances, particles).
