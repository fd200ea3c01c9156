# vim-compose-host

A native messaging host with which a browser extension composes text in a
terminal editor. The extension sends one "begin" message with a first content;
the host stores it in a file, opens an editor on the file, and sends the whole
text back whenever it changes. HTML is edited as Markdown, by way of pandoc.

- `src/` is the logic, verified with Verus: frames and messages (`frame`,
  `message`), the commands that are run (`command`, `text`), the wait for the
  editor's process id (`pid`), the edited file and its HTML (`source`, `html`),
  updates (`update`), the course of a session (`session`) and the errors that
  the host raises (`error`).
- `app/` is the program around it: pipes, files, processes and threads.
- `tests/` runs the library with the crates that it calls.
