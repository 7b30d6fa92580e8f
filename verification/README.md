# nordvpn_rs

An HTTP proxy whose traffic leaves through a NordVPN connection, with an admin
REST API to inspect and steer it.

## Layout

- `src/` — the verified library (Verus):
  - `text.rs`: the string operations the client's answers are read with
    (lines, split, replace, trim), each against a specification;
  - `daemon.rs`: the NordVPN daemon's init script, its status answers and the
    wait after a start as a state machine;
  - `nordvpn.rs`: the NordVPN command line client — command lines, the
    reading of connect and status reports, the round-robin filter queue;
  - `proxy.rs`: the proxy's bookkeeping — host monitors with bounded
    histories, client connections, rotation policies (timed, by request
    count, manual) and the drain state around a rotation;
  - `admin.rs`, `helper.rs`: the cluster tables and the curl client;
  - `filters.rs`: the `country:slot` filter arguments and their grouping;
  - `laws.rs`: properties that span several operations.
- `app/` — the program around it: argument parsing, running the commands the
  library builds, the hyper proxy server and the axum admin API.
- `tests/` — tests of the library on concrete values.
