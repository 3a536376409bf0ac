# speakrs

A chat client and server. The library under `src/` holds the data model,
the key encodings and their order, the line protocol, the command tree of the
interactive client, the client's connection state machine, the server's
password and permission checks, and the decisions of the prompt — each with a
contract proved by Verus. `app/` is the program around it: arguments,
configuration file, the `sled` store, the `tarpc` service, and the terminal
prompt.

Modules of the library:

- `key`, `keygen`, `order`, `compound`: keys, the bytes they are stored
  under, how new ones are made, and that their order is the order of those
  bytes.
- `wire`, `protocol`: the line protocol; a written request to create data is
  read back whole.
- `schema`, `auth`: records; salted password hashes; sessions and
  permission checks.
- `connection`: not connected, unregistered, registered, logged in.
- `connect`: the steps of connecting from the prompt: registering a user,
  checking the stored session, logging in.
- `command`, `repl`, `text`: the command tree (matching, help text,
  completion) and what typed lines and prompt answers come to.
- `config`: where the configuration and the stores live.
