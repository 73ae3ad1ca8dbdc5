# synd

An Atom and RSS feed daemon (`synd`) and its controller (`synctl`).

- `src/` is the library, verified with Verus: the configuration file
  parser, entry identifiers and their text form, points in time and their
  stored form, how the daemon answers the queries sent over its socket
  (following feeds, marking entries as read and unread, listing both),
  when it fetches the followed feeds, which fetched entries are new, and
  how a fetched feed is read into entries. Parsing XML is left to `atom_syndication` and `rss`, called
  through trusted wrappers whose results are named in the contracts.
- `app/` is the program around it: the socket, the database files, HTTP,
  running the action for new entries, signals, the command line, and the serialised forms of the messages.
  Run under a name ending in `synctl` it is the controller; otherwise it
  is the daemon.
- `tests/` runs the library on concrete inputs.
