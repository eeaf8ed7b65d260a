# spaceball

The rules of *Cosmic Spaceball Tactical Action Arena*, a top-down multiplayer shooter,
written as a Verus library: each function states what it does in `requires` / `ensures`,
and Verus proves the code against it.

## Layout

- `src/` — the verified library.
  - `teams`, `timer`, `entropy`: teams and their colors, one-shot countdown timers in
    nanoseconds, the seeded random generator of a match.
  - `guns`, `characters`, `physics`: gun presets, cooldowns, magazines and volleys; character
    markers, deaths, gun pick-up and clean-up; collision layers and ongoing contacts.
  - `players`, `peers`, `session`: the player registry and its tallies, messages between peers,
    and how a session is set up from the peers that gathered.
  - `scenes`: scene selection, spawn points and the respawn queue.
  - `controls`: exchanged input bits, keyboard and gamepad actions, pause, AI actions.
  - `input_consumption`, `focus`, `text_input`, `chat`, `menu`, `score`, `color_interaction`:
    the user interface's state machines — input layers, focus, text editing, the chat, menus,
    settings, the scoreboard and the heads-up display.
  - `strings`: decimal text and small string helpers.
- `tests/` — tests on concrete values, run against the compiled library.
- `app/` — the program around the library: the command line, the wire format of peer
  messages, and the floating-point parts (hit points, movement axes, arena lengths).
