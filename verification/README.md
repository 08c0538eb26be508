# hust_network_login

A client that keeps a machine logged in to a campus network's captive portal.

- `src/` is the verified library:
  - `text.rs`: character-level string operations (search, trim, line splitting,
    splitting at a character) with specifications that follow `str`'s methods.
  - `config.rs`: the settings, their defaults, the configuration file's format
    (user name, password, then `key=value` overrides) with warnings for what it
    ignores, the order in which files are looked for and the search through
    them, and the settings compiled into the program.
  - `login.rs`: reading the portal's redirect page and the login exchange as a
    state machine from state and event to next state and action.
  - `percent.rs`: percent-encoding of the portal's query string, done by the
    `urlencoding` crate.
  - `error.rs`: the ways a login attempt fails.
- `app/` is the program around it: reading files and arguments, testing which
  candidate files exist, the HTTP requests (with `minreq`), printing, and the
  loop that sleeps between attempts. The password encryption is asked of an
  `encrypt` module (`encrypt::encrypt_pass`), which is not part of this crate.
  `app/constants.rs` holds the settings compiled into the program; fill in the
  user name and password there and rebuild to run without a configuration file.
- `tests/` runs the library on concrete inputs.
