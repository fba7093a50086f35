# base_framework

A base framework for monitoring applications and inspecting calls between
them, with a small command-line tool (PPC) around it.

- `src/` is the library, verified with Verus: the application monitor and its
  lifecycle rules, the middleware checkers (whitelist, rate limiter, parameter
  validator) and the chain that runs them in priority order, the decisions
  behind the C interface, the command-line model, error codes, log-line
  layout and the registry of loaded dynamic libraries.
- `app/` is the program around it: argument parsing, the SQLite command
  store, opening and calling dynamic libraries, the logger sink, the exported
  C functions, and the floating-point metric statistics.
- `tests/` exercises the library.
