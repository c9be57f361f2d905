# ssh_agent_mux

The verified core of an SSH agent multiplexer: one agent socket that offers
the keys of several upstream SSH agents and forwards each signing request to
the agent holding the key.

Layout:

- `src/` — the library, verified with Verus.
  - `mux.rs`: the multiplexer's state (upstream agents, key table) and the
    step functions behind each agent request: refreshing the identities,
    routing a signature, answering or broadcasting an extension, adding keys.
  - `known_keys.rs`: the table from public key to upstream agent.
  - `laws.rs`: properties across operations (what a refresh leaves in the
    table, the order keys are offered in, how broadcasts settle).
  - `cli.rs`: the configuration, its default locations, and the shell-style
    expansion of configured paths.
  - `service.rs`: the state machine of the service-management commands and
    the rules for writing a new configuration file.
  - `logging.rs`: the log-line filter; `text.rs`: string helpers.
- `app/` — the program around it: command line, configuration file, logger,
  service manager, and the asynchronous agent socket that talks to the
  upstream agents.
- `tests/` — tests of the library.
