# deckgym

The decision logic around the deckgym card-game engine, written in Verus and proved
against its contracts:

- `interactive`: the control plane that lets an outside caller drive either seat of a game
  (which decisions pause, which resolve by themselves, which go to a seat's own bot, and
  how submitted moves and chosen draws are checked).
- `tui`: the terminal viewer's state machine (live play and replay, paging, undo, turn
  jumps, key handling) and what it draws (hand windows, log centering, titles).
- `web`: the web service's request checks, cookies and sessions, OAuth client settings,
  deck rules and game history filters.
- `model`, `players`, `text`: shared types and string helpers.

The engine itself (game state, legal-move generation, move application) is not part of this
crate: a driver hands the library plain observations of a position (`interactive::Position`,
`tui::app::Frame`) and carries out the commands it returns.

`app/` is the HTTP server around the library (axum, sqlx, oauth2); `tests/` runs the library
against a small two-seat game and on concrete requests.
