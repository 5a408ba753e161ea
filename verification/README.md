# rusty_book_pirate

A terminal client that searches an IRC e-book channel and downloads books over DCC.

`src/` is the library, with contracts and proofs:

- `dcc` — reading a DCC SEND offer out of a message; the acknowledgements of a transfer.
- `search` — reading the result listing (a zip archive) that a search bot sends; keeping the
  results whose sources are online.
- `reply` — recognizing the bot's reply and the file name it offers.
- `connection` — server options, the welcome notice, the nickname, reply timeouts.
- `defs` — selectable lists, their entries, the states of a session.
- `session` — the interface as a state machine: what each key does in each state.
- `text` — whitespace, words, unsigned decimal numbers.

`app/` holds the program around it: the IRC connection, TCP transfers, files and the screen.
