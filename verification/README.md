# RusTTD

A terminal transport tycoon game: a generated map of towns, industries and terrain,
vehicles that carry cargo between stations, a market whose prices follow distance,
supply, demand, inflation and the economic cycle, computer companies that plan and build,
and saving and loading of the whole game.

## Layout

- `src/` is the game's logic as a library, written in Verus: every function carries a
  contract and is proved against it.
  - `cargo`, `geometry`, `names`, `seqs`: cargo tables, integer distances, text helpers
    and sequence search used throughout.
  - `world`, `economy`, `vehicle`, `player`, `ai`: the simulation.
  - `ui`, `ui_text`, `game`: keys and menus, the texts and colours the screen shows, and
    the game that ties it together, one input or tick at a time.
  - `save`, `server`, `render`: the saved form of a game, web commands, and what the
    web page is sent.
  - `limits`: checks that a tick can run without overflow.
  - `laws`: properties of prices, values, costs, reputation and towns.
- `tests/`: tests of the library on concrete games.
- `app/`: the program around the library: the terminal loop and drawing, the save file in
  JSON, and the web server.

Amounts that are fractions elsewhere are kept as integers: prices in thousandths, growth
rates in hundredths of a percent, vehicle progress in thousandths of a leg.
