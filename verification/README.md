# zdu_lib

A verified library for Zelda: Dungeons Unseen, a patcher for the NES Legend of Zelda ROM
with a small multiplayer host, and the desktop program around it.

- `src/` is the library, verified with Verus:
  - `rom_ext`, `locations`: where the dungeon data lives in the ROM, and the walk that
    finds a dungeon's rooms from its LevelInfo rooms through passable doors;
  - `dungeon`, `cave`: the room, door and shop data and the spoiler-log text;
  - `game`: the game image (built from a base ROM and a bsdiff-4 patch), the starting
    inventory and progression it is given, and what the spoiler log reads from it;
  - `patch`: the calls into `qbsdiff` and `bsdiff`;
  - `server`: the multiplayer wire format and the shared game state;
  - `ui`: the window's state machine (messages in, effects out), number parsing, picker
    labels and the host page's tables;
  - `text`: decimal and hex formatting.
- `app/` is the program: the `iced` window, file dialogs, configuration files, the
  `tokio` server loop, and writing the generated ROM, patch and spoiler log.
- `tests/` runs the library on concrete inputs.
