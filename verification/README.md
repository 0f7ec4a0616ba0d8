# LT AI Coach exporter

A read-only mod for Teamfight Manager 2. When LT AI Coach asks, by dropping a request
file, it reads the live game through the mod API and writes the data that the coach needs.

- `src/` is the library: what is decided and what is written, in Verus and proved.
  - `frame`: what is to be done in a frame of the game.
  - `export`: the files of an export, their order, and the manifest.
  - `tables`, `athletes`, `metadata`, `roles`: the contents of the files.
  - `campaign`, `ledger`, `history`: the identity of a campaign, its captured balance
    sheets, and the history made of them.
  - `portraits`: which art of a champion resolves, and to what.
  - `trace`, `paths`, `text`, `json`: timings, locations, text and JSON documents.
- `app/` is the mod around it: the game's types, the order of its dates, the clock, and the
  file system with the search for a mod's texts.
- `tests/` runs the library on concrete games.

JSON documents are `serde_json` values. What is believed of that crate without proof stands
in `src/json.rs`, each function with what is claimed of it.
