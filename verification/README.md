# stasis_bot

A bot that keeps the ender pearls of players in stasis chambers. A player throws
a pearl next to a trapdoor; when they message the bot `tp`, it walks to that
trapdoor and uses it, which brings the player back.

- `src/` decides. It is verified with Verus: every function states in its
  contract what the bot does, over mathematical models of its state and actions.
  `events::handle` takes an event and returns the actions to carry out.
  `laws.rs` proves what holds of the bot as a whole.
- `app/` connects the decisions to the game with azalea, which needs a nightly
  compiler: it turns packets into events and actions into packets, reads the
  command line, and keeps the file with the trapdoor positions.
- `tests/` runs the library on concrete cases.
