# pesu_wifi

Captive-portal login manager and keepalive watchdog for the PES University
campus Wi-Fi, with its logic verified by Verus.

## Layout

- `src/` — the verified library:
  - `text.rs`, `textmap.rs`: a character-level model of strings and an
    insertion-ordered map of texts with distinct keys;
  - `portal.rs`: the portal's XML replies (read with quick-xml), message
    cleaning, endpoints, request forms and what a login, logout or keepalive
    reply means;
  - `config.rs`: saved accounts, where configuration files are looked for, the
    `.env` credential format and the account operations;
  - `wifi.rs`: the connected network as NetworkManager or `netsh` report it,
    the campus-network rule and the plans of the self-healing tiers;
  - `daemon.rs`: keepalive timing and jitter, the daemon lock and discovery,
    notification switches;
  - `watchdog.rs`: the watchdog loop's decisions as a state machine, with its
    laws (counter bounds, one request per step, login only after failed
    keepalives, standby, healing tiers);
  - `cli.rs`, `ui.rs`: the commands' decisions and the status card;
  - `clock.rs`: the wall clock.
- `app/` — the program: command-line parsing, terminal output, files, HTTP,
  processes and operating-system events, driving the library.
- `tests/` — tests of the library on concrete values.
