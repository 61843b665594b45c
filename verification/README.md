# fioul

A library and two programs around the French gas station data that the government publishes.

- `src/` is the library. It reads the published documents, and holds the rules of the server and
  of the command line tool: what a query asks for, how long data is used, how requests are spaced
  out, how stations are sorted, what is remembered of places. All of it is verified with Verus:
  each function states what it returns, and the proof functions state what holds of several of
  them together.
- `app/` is ordinary Rust around it: HTTP, files, the clock, the command line, and everything that
  computes with floating point numbers.
- `tests/` runs the library on concrete values.

What the library gets from other crates (XML, archives, encodings, dates, CBOR, a cache, sets) it
calls through small functions marked `external_body`. Their contracts are not proved; each says
which function it stands for and what is claimed of it.

The server answers `/api/stations` with a JSON document:

```json
{ "status": "ok", "stations": [] }
```

or, where something went wrong:

```json
{ "status": "error", "code": 0, "message": "missing 'year' query parameter" }
```

Its query parameters are `source` (`instant`, `current_day`, `current_year`, `historic_day`,
`historic_year`), `year`, `month` and `day` for the historic ones, `location` as
`latitude,longitude,distance` with the distance in meters, `location_keep_unknown`, and `ids` as a
comma separated list. Instantaneous data is fetched at most once every 5 minutes, other data once
every 30 minutes, and that data does not exist is remembered for an hour.
