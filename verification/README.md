# slimebot

The verified core of slimebot, a small self-hosted discord bot: what its commands
decide and say, dice rolls, wordle (the classic game and the newer game core), the
message watchers (haiku, vore, `L`, `CL`), bug reports, configuration, secrets and the
vault environment.

- `src/` is the library, written and verified with Verus. Each public function states
  in its contract what it returns; laws that relate several functions are proof
  functions named `lemma_*`.
- `tests/` runs the library on concrete values.
- `app/` is a small console driver: it reads secrets and settings from the
  environment and files, answers the magic 8-ball, and plays a wordle game on
  standard input.
