# guesser_backend

Backend of a multiplayer geography guessing game: players see photographs
of a place and guess where it is on a map.

- `src/` is the verified library (Verus): room codes and player ids, the
  room state machine, what each request to a room does (joins, ready marks,
  guesses, host start, scoring a round, leaderboards), the location pool,
  the image cache with jittered expiry, the room directory, the SPARQL query
  and result reading for Wikidata, the choice and ranking of Commons images,
  generated fallback images, the retry policy, and the HTTP answers and
  errors. Public proof functions state the laws the library keeps (first
  guess wins, the leaderboard is ranked, rounds progress to the end of the
  game, a cached entry reads back until it expires, codes decode to their
  room, fallback tiles are distinct, ...).
- `app/` is the server around it: axum routes and WebSocket handling, the
  task that runs each room (timers, channels, fetching rounds), the HTTP
  clients for Wikidata and Commons, configuration from the environment,
  JSON forms of the library's types, and the real-number parts (coordinate
  validation, great-circle distance and the score curve).
- `tests/` exercises the library on concrete values.
