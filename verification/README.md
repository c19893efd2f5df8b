# rpg_toolkit

Verified game logic for a retro, story-driven RPG toolkit, written in Verus.

`src/` is the library. Every executable function there carries a contract
that Verus proves, stated over mathematical models (sequences, maps and
views of the library's types):

- `markup`: the `__bold__` / `_italic_` dialog markup parser;
- `queue`, `actions`, `condition`, `rewards`: the event action queue, its
  branch conditions and the currency, item, party, ability and experience
  rewards;
- `shop`, `shop_session`: buying and selling, stock and the shop screen;
- `status`, `selection`, `input`, `save`: the status screen, choice boxes,
  movement intent, new game / continue and the title menu;
- `map`, `patrol`: collision, tile triggers, NPC interaction, map changes,
  scripted and patrol movement;
- `dialog`, `hotkey`: dialog state, the dialog text registry, the
  typewriter reveal and project hotkeys;
- `editor`, `forms`, `search`, `thumbnails`, `cli`: undo of project-wide
  edits, form validation, searchable lists, the thumbnail cache and the
  launcher's command line;
- `strmap`, `text`: a string-keyed map with unique keys, and text helpers.

Laws that relate several operations are public proof functions named
`law_*`. Calls into the standard library and `serde_json` go through small
trusted wrappers whose contracts are documented where they stand.

`tests/` exercises the library on concrete values. `app/` is the launcher
around it: command-line handling, save files on disk (through serde copies
of the library's types) and the floating-point presentation arithmetic.
