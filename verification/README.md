# watchwoman, the client

The command line client of watchwoman, a file watching service that speaks the watchman
protocol.

- `src/` is the verified library: it turns commands into requests, JSON into protocol values and
  back, decides how to reach the daemon and what to print, and writes the status report. Its
  contracts are stated over the trees that values denote (`src/value.rs`, `src/json.rs`) and over
  sequences of characters.
- `tests/` runs the library on concrete values.
- `app/` reads the arguments, opens sockets and files, and starts processes.
