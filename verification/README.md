# weaver-server

The relay server of Tunnel Weaver. Clients open a tunnel from behind a firewall;
visitors reach their services under hostnames of the relay's root domain, over
TLS with certificates that the relay orders by itself.

* `src/` is the library, verified with Verus: what the edges answer and forward,
  which certificates are ordered, renewed and served, how tunnels are registered
  and their exchanges carried on, the control protocol, the database schema, and
  the steps of setup and removal. Each function states what it returns; the
  public proof functions state what holds across functions.
* `app/` is the program around it: sockets, the database, ACME, TLS, the terminal
  and the service manager. It carries out what the library decides.
* `tests/` runs the library on concrete values.

Calls into other crates that the library makes are in small wrappers marked
`external_body`; the comment above each says what is taken on trust.
