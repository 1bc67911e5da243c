# entrypoint

The startup container of flecs: it (re)creates the flecs containers (the
`floxy` proxy, the `flecsd` core and the web app), the `flecs` bridge network
and the proxy's data volume, starts the containers, and stops and removes
them again on `SIGTERM` or `SIGINT`.

## Layout

- `src/` is the library, verified with Verus.
  - `text.rs`: decimal and hexadecimal numerals, the `u8` grammar, splitting
    strings.
  - `net.rs`: IPv4 and IPv6 addresses as plain values, dotted-decimal text.
  - `docker/container/config.rs`: the container configurations and the
    `KEY=value` lists of the `FILIP_*_ENV` variables.
  - `docker/container.rs`: the order of the containers and the state machine
    that (re)creates one container.
  - `docker/network.rs`: free ports, the choice of subnet and gateway, and
    the state machine that sets up the network.
  - `docker/network/ifaddr.rs`: interface records and the host's adapters.
  - `docker/volume.rs`: the state machine that makes sure a volume exists.
  - `signal.rs`: when the signal handler stops the program.
- `app/` is the program around it: Docker calls through bollard, `/proc`
  through procfs, `getifaddrs(3)` through libc, the signal stream, and the
  environment variables.
- `tests/` runs the library on concrete values.

Each state machine is driven the same way: the program performs the
action that a step returns, hands the outcome back to the next step, and
stops at the `Finish` action, which carries the result.
