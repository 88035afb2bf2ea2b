# Harbr Router

A modular reverse proxy for HTTP, TCP and UDP. Everything that decides something is a Verus library
with proved contracts; the sockets, files and tasks around it are ordinary Rust.

## Layout

- `src/` is the verified library.
  - `config`, `routing`, `hash_ring`, `proxy`, `router`, `metrics`, `server`, `affinity`, `buffers`,
    `startup`: the router, from its configuration to the choice of an upstream and the metrics of
    what came of it.
  - `new_config`, `modern_router`, `proxies`: proxies that are hosted as instances with hosts.
  - `dynamic_config`, `config_api`, `client`, `tcp_proxy`, `udp_proxy`: a configuration that changes
    while it is in use, its API, and the servers that go by its routes.
  - `plugin`, `builtin_plugins`, `management_api`: plugins, their registry and loader, the built-in
    ones, and the API that manages them.
  - `error`, `text`, `time`, `address`, `name_map`, `headers`: what the others are made of.
- `app/` is the program: command line, files, sockets, tasks, and what needs floating point.
- `tests/` are the tests of the library.

## Conventions

- Functions that deal with time take the present moment as an argument. Functions that would have
  to do input or output take what came of it as an argument, or are written as one step from an
  event to what is to be done next.
- Streams, sockets, shared libraries and tasks are known to the library by numbers; the program
  keeps the things themselves.
- A fraction is a pair of integers in the library. The program turns it into a floating-point
  number where one is written out.
- `pub proof fn law_...` states what holds of several functions together.
- What is taken from outside crates without proof stands in small functions marked
  `#[verifier::external_body]`, each with a comment that says what it relies on.
