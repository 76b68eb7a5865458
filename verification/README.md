# basedtyper

A typing game for the terminal, with a small server for games against other players.

- `src/` is the game's logic, verified with Verus: text handling (`text`), words and
  word lists (`word`, `wordlist`, `parser`, `generator`), the client's state and what keys
  and server messages do to it (`app`, `input`, `events`, `screen`), the settings
  (`config`), the protocol (`wire`, `message`, `server_message`, `server`, `protocol`),
  colours (`color`) and the command line (`cli`).
- `app/` is the program around it: the terminal, sockets, files, HTTP, JSON and TOML text,
  and the clock-based speed in words per minute.
- `tests/` runs the library on concrete values.

Messages are JSON objects `{"call": .., "data": {..}}`. The library works on the fields it
reads and writes (`wire::Envelope`); speeds travel as the bit pattern of an IEEE-754
double, so that the library carries them without floating point.
