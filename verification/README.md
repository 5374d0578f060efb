# math_battle

Game logic of a multiplayer arithmetic quiz, verified with Verus.

- `src/` — the library, every function with a contract proved by Verus
  except the trusted calls into std and outside crates, whose contracts
  Verus takes as given: `arc_clone` (`Arc::clone`, in `expression`),
  `uuid_now_v7`, `uuid_text`, `uuid_parse` and the declared `uuid::Error`
  with the name `uuid_parsed` for what parsing returns (in `ids`),
  `choose_operation` (`rand`'s `choose`, in `operation`) and `random_index`
  (`rand::random_range`, in `question`). The modules:
  identifiers (`ids`), users and rooms (`user`, `room`), scores and
  leaderboards (`score`, `participant`, `member`, `order`, `leaderboard`),
  questions (`operation`, `expression`, `question`), time (`duration`,
  `timer`, `round`), the state of a running quiz and its decisions on each
  request and each second (`quiz`, `quiz_state`), the leading of a quiz
  through its questions (`leading`), the server's registry of
  users, rooms and quizzes (`state`) and what it answers each request of a client
  (`dto`, `session`). `laws` holds the properties that span several
  functions.
- `app/` — the server around the library: the HTTP service, the quiz tasks
  and timers, the locks, cookies, the wire format of messages, and the
  random questions on `f32` numbers.
- `tests/` — tests of the library.
