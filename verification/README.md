# alpaca_trading3web

The decision logic of a small algorithmic trading workstation for the Alpaca
broker, written in Verus and proved against its contracts, and a thin server
around it.

* `src/` — the verified library:
  * `auth` — users, password hashes, sessions and saved API keys;
  * `credentials` — master key rules, the credential salt, and sealing
    broker credentials with Argon2id and AES-256-GCM;
  * `records` — symbol lists, watch-list symbols, comma-separated settings,
    slugs, strategy ids and masked keys;
  * `models` — broker records and the stored names of the enumerations;
  * `order` — the order request check;
  * `alpaca` — broker addresses, credential headers and option symbols;
  * `routes` — errors and their status codes, bearer tokens, the broker
    client of a request, route replies and analytics script arguments;
  * `strategies` — the run state of the built-in strategies;
  * `runner` — one strategy run as a step function: from the run's state
    and what came of the last action (strategy loaded, credentials resolved,
    quote fetched, signal evaluated, trade prepared, order submitted, fill
    reconciled, trade recorded) to the next state and action, with the
    provider choices, the notes a run is marked with and the credential
    gate on broker orders;
  * `streaming` — watched symbols, client subscriptions and rate limits,
    upstream feed subscriptions, realtime routing and the option listing;
  * `assoc`, `text` — a string-keyed map and character-level helpers.
* `tests/` — tests of the library on concrete values.
* `app/` — the HTTP and WebSocket server, the configuration file, the
  broker and market data clients, price streams, strategy tasks and option
  pricing; `app/runs.rs` drives a strategy run through the library's step
  function, doing the outside work each action asks for through the
  `RunWork` trait (strategy store, market data, signal, broker, ledger).
