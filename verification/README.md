# lmu_pitwall

The logic of a bridge between Le Mans Ultimate and a browser dashboard, verified
with Verus, and the program around it.

- `src/` is the library. Verus proves every function of it against its contract,
  but for a few calls into the standard library and into `sha2`, `hex` and
  `serde_json`: their contracts are believed, and the comment above each says what
  they claim. The library reads no file, socket or clock; times, bytes and rows
  are handed to it, and it says what to do next. Floating-point numbers are carried
  by their bits.
  - `config`, `lifecycle`, `version`: the command line, which parts of the bridge
    run, when it stops by itself, and which of two versions is older.
  - `http_server`, `websocket`: which connection is which, requests and answers,
    viewers and their commands.
  - `relay`: the frames, the room of a server and the uplink of an agent.
  - `telemetry`, `polling`, `broadcaster`: from the game's frames to messages, and
    which message is due when.
  - `post_race`: finding and importing results, who the player is, and filling
    gaps from laps that were captured live.
  - `race_engineer`: voices and what clients may ask of the engineer.
  - `text`, `paths`, `ieee`, `rounding`: character sequences, file names, the order
    of floating-point numbers by their bits, and rounding to them in integers.
- `tests/` runs the library on concrete values.
- `app/` is the program: sockets, files, the database, serialisation and
  floating-point arithmetic.
