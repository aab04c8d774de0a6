# opensessions server

The logic of the opensessions server, proved with Verus. The server shows the
sessions of terminal multiplexers, and the coding agents that run in them, in a
sidebar. It takes requests over HTTP and commands over websockets.

- `src/` is the library: the reading of requests and commands, the routing and
  the replies, the state behind the sidebar, the choice of sessions and panes,
  the caches, and the sessions of remote tmux servers. Everything in it is
  verified. Each module begins with the values that its contracts speak of.
- `tests/` runs the library.
- `app/` is the server around it: sockets, processes, files and timers. What
  other parts of the project provide (the tmux client, the agent tracker, the
  state that is shown) stands behind the traits of `app/ports.rs`.

The contracts are stated over plain values: texts as sequences of characters,
lists as sequences, and maps as maps. Public proof functions state what holds
across functions, such as that a name of a remote session splits back into its
host and its session, or that a stored value is found again until it expires.

A few contracts are believed and not proved: those of the functions that call
`serde_json`, `sha1_smol` and `base64`, and those of three functions of the
standard library. Each says in its comment what it claims.
