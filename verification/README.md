# mongodex

A command-line manager for saved MongoDB connections: it lists, adds, edits and
removes saved servers, lists their databases, and dumps, restores, migrates or
opens a shell on a `[database@]connection` target by running the MongoDB tools.

- `src/` is the verified library (Verus): parsing of targets, the arguments
  given to `mongodump`, `mongorestore` and `mongo`, the client settings of a
  saved server, the rules for editing a server's details, the listing of
  servers, and the choice of command and the checks made before a command runs.
- `app/` is the program around it: the command line, prompts, the SQLite and
  sled stores, the MongoDB client and the child processes.
- `tests/` exercises the library on concrete values.
