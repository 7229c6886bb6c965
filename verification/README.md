# flashdark

The game logic of FlashDark, a first-person horror game in a haunted house,
written in Verus: each function of the library states what it does in its
contract, and Verus proves the code against it.

## Library (`src/`)

- `spatial_map`: ids filed under grid cells, with lookup by rectangle.
- `navmesh`: the waypoint graph of the ghost and its pruning to the part
  reachable from a waypoint.
- `puzzle`: the study key puzzle as a state machine, the marks on the study
  keys and the four-symbol storage lock.
- `interact`: who may use an interactable, its sound, when doors may be opened,
  the storage lock buttons and the library bookshelves.
- `level`: what the mesh names of the level mean, and the random choice of the
  loose planks.
- `monster`: the ghost's reaction to a new target and its choice of room.
- `menu`: the menu buttons and the pause key.
- `controls`: how mouse buttons are written in the configuration.
- `obj_format`, `mtl_format`: the Wavefront OBJ and MTL text of the level.
- `text`, `rng`: std's string methods and the random generator, with their
  contracts.

## Program (`app/`)

The game itself: loading, rendering, sound, input and everything computed in
floating point, built on the geng engine and calling the library for its rules.
