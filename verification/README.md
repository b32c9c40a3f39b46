# akv

A key-value store with named keyspaces, string and hash values with expiry
times, a binary frame protocol, a TCP server and a line-oriented client.

- `src/` is the library, verified with Verus:
  - `strmap`: a string-keyed map that keeps the order in which keys arrived;
  - `value`, `error`: stored entries and command errors;
  - `state`: the keyspaces and every command on them, with their contracts
    and the laws that relate them (read after write, expiry, paging);
  - `persistence`: recovery from a snapshot and a write-ahead log;
  - `command`, `frame`, `session`: request and answer types, the 12-byte
    frame header, and the per-connection session that runs no request before
    the secret;
  - `config`, `cli`: the server's and the client's settings, the client's
    command-line reader and its output;
  - `text`: decimal numbers, and the standard library's integer parsers.
- `app/` is the program around it: sockets, tasks, timers, JSON and TOML,
  the terminal. Run as `akvc` it is the client; otherwise the server.
- `tests/` exercises the library on concrete values.
