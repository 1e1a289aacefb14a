# libexodus

The core of Exodus, a platformer after Space Exodus for Psion handhelds: tiles and tile sets,
maps and their binary file format, campaign graphs and their text format, highscores, settings,
map generators, the game's directories, the state of its dialogs and the rules of play.

The library in `src/` is verified with Verus: every function states what it returns or changes
in its `requires`/`ensures`, over spec functions and views, and the round trips of the file
formats are proved as lemmas (`lemma_*_round_trip`).

- `tiles`, `tilesets`, `directions`: tiles, their kinds and byte codes; texture packs.
- `world`: maps (`GameWorld`), their file format (`io`), their hash (`hash`), preset and example maps.
- `campaign`: campaign graphs; `syntax` holds the line grammar, `graph` the file reader and writer,
  `trail` the campaign trail as a map, with the entry points a walk from the start opens.
- `highscores`: highscores per player, per map and the database file.
- `config`, `directories`: settings and where the game keeps its files.
- `worldgeneration`: empty and filled maps (a labyrinth is generated as an empty map), and a
  seeded maze generator of its own.
- `player`, `movement`, `scoreboard`, `rules`: what the player does and what the game makes of it.
- `dialogs`: what the buttons and fields of the game's dialogs do.
- `codec`, `numbers`, `text`, `io_error`: bincode values, decimal numbers, text, read errors.

`app/` holds what Verus does not see: reading and writing files, listing map files, and the
floating point side of the player's movements. `tests/` runs the library.
