# nrun

`nrun` runs a long-lived command (a dev server, a docker container) inside a
dedicated tmux window, streams the window's output back on its own standard
output, and owns the process lifetime, so that the window, the container and
the capture log are cleaned up when the command exits or `nrun` is signalled.

- `src/` is the library, verified with Verus: the tmux and docker argument
  vectors (`tmux`, `docker`), the parsers of tmux output (`tmux`), the
  capture-log naming (`cli`), the relaying of the log (`tail`: each read's
  bytes written out in order, one flush after the first empty read, errors
  returned as they come, stated over the relay's own account of the calls
  it made), and the
  supervision of a run as a state machine (`supervisor`), with the laws that
  hold of them. `text` holds the character-level helpers they share.
- `app/main.rs` is the program: it parses the command line and performs the
  actions the supervisor decides on (spawning tmux and docker, files,
  signals, sleeps).
- `tests/` exercises the library on concrete values.
