# sugata

A Discord bot for Call of Cthulhu sessions: dice rolls, skill rolls with bonus and
penalty dice, bouts of madness, character creation, and character sheets loaded from a
Google spreadsheet whose statuses can be corrected during play.

- `src/` is the verified library (Verus): decimal text (`text`), dice and extra dice
  (`dice`), judging a roll (`judge`), correction operators (`correction`), skill tables
  kept in an `IndexMap` (`skills`, `order`), the reply texts (`messages`, `character`),
  the loaded sheets and the requests against them (`session`), and what each command
  computes (`commands`).
- `app/` is the bot itself: the `poise` commands, the replies as embeds, and reading
  the spreadsheet with `google-sheets4`.
- `tests/` exercises the library on concrete values.
