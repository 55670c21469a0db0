# multihangman

A networked hangman game: a UDP server holds the running games and the
logged-in accounts, and raylib clients join games and guess letters.

- `src/` is the verified library (Verus): the game rules and how the server
  answers each event (`server`), the client's copy of its game (`client`),
  the screens' state machines (`game`, `scenes`, `connect`), the text-input
  boxes (`textbox`), the shared data types (`structs`, `db`, `cli`) and the
  text operations they rest on (`text`, `categories`). Each public function
  has a contract; the laws of the game stand as proof functions.
- `app/` is the program around it: sockets and message encoding, the
  account database, settings files, the command line and the raylib window.
- `tests/` runs the library on concrete games and key presses.
