# spacetraders

A bot for the SpaceTraders game whose decision logic is verified with Verus.

- `src/` is the library: the game model, the fleet's decisions (which contract to take, what
  each ship does next, where to mine, sell, refuel or refine), route and fuel planning, the
  output broker's rules, and the stores for cooldowns, ship states and survey data. Every
  function states its behaviour in `requires`/`ensures` and is proved by Verus, except five
  trusted wrappers whose contracts are believed: `clock::now_millis`,
  `clock::parse_rfc3339_millis` and `clock::parse_utc_datetime_millis` (chrono),
  `text::to_lowercase` and `text::quote_text` (std). The laws the library keeps are public
  proof functions named `law_*`.
- `app/` is the program around it: the HTTP client, JSON shapes, file storage, the output
  broker's task, floating-point ratings, and the runs that call the API and wait.
- `tests/` runs the library on concrete values.

Run with `SPACETRADERS_TOKEN` set; `-v N` sets the verbosity, `--refinery`, `--iron-ore N` and
`--mining-fleet` start the refinery, iron ore and fleet mining runs.
