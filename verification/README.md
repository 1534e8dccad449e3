# editor

The map editor's tool logic, verified with Verus: tile brushes (picking,
pasting, repeated pasting, flood fill, hook-through cuts between the game
and front layers), the quad and sound brushes' select mode, and the
animation timeline's point editing and selection.

- `src/` is the verified library. `tiles`, `layers`, `fill`, `brush`,
  `hookthrough`, `select` and `tool` hold the tile brush; `objects` the quad
  and sound brushes; `animation`, `anim_select` and `timeline` the animation
  panel; `tune` and `tune_zones` the tune zone overview (the actions that sort
  the zones or add a typed tune) and `commands` the server commands (reading
  a typed command, the actions that add or remove one); `layer_pick` the
  ctrl + right click layer picker; `ui` plain dialog state; `laws` the
  properties proved across these modules.
- `tests/` runs the library on concrete maps and brushes.
- `app/` is the unverified glue: the saved join dialog fields (JSON), undo
  group names, the tile picker's screen geometry, animation times and the
  conversion of typed commands between strings and characters.
