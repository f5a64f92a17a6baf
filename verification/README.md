# tempuspoints_poller

A poller that copies the map list and the per-map records of the Tempus API
into Postgres, with its logic verified by Verus.

- `src/` — the verified library:
  - `models`: the API data as the library holds it;
  - `client`: request URLs, the success test on status codes, and the body
    excerpt quoted in parse errors;
  - `db`: the rows written to the `maps`, `users` and `records` tables;
  - `poller`: the main loop's decisions as a state machine, with its laws
    (`law_*` proof functions).
- `app/` — the program: HTTP (reqwest), JSON (serde), Postgres (sqlx), the
  async loop (tokio) and telemetry, driving the library's `Poller`.
- `tests/` — tests of the library on concrete values.
