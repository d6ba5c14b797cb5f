# zeroterm

The verified core of a terminal mail client for reaching inbox zero. It groups messages by
sender, keeps whole threads together, and archives, deletes and restores them with the
keyboard.

The library under `src/` holds every rule of the client. Each function states in its contract
what it returns or changes, and Verus proves it:

- `text`, `order`, `timestamp`: text as sequences of characters, stable ordering, dates;
- `email`, `headers`, `replies`, `uids`, `threading`: addresses, headers, the replies that can be
  parsed, UID sets, and the threads that messages make up;
- `listing`, `grouping`, `mailbox`, `undo`, `modes`, `state`, `app`: what is shown, selected,
  removed and restored;
- `desk`, `session`, `demo`, `demo_session`, `accounts`, `startup`: keys, answers of the mail
  server, and the demonstration;
- `imap_client`, `worker`, `imap_worker`, `gmail`, `recover`, `config`: what the server is asked
  for, how work is split and tried again, and the settings;
- `ui`: the texts and the layout of the screen;
- `laws`, `tallies`: what the operations keep together, and what the counts come to. More laws
  stand beside the functions they are about.

Calls into other crates (dates, regular expressions, IMAP replies, MIME headers, URLs, TOML,
directories) stand behind small functions that say what is taken from them.

`app/` is the program around the library: the terminal, the threads, the connection and the
files. Called under the name `recover`, it gets deleted messages back out of the trash.
`tests/` runs the library on concrete values.
