# wgbridge

Transparent WireGuard gateway for a Raspberry Pi: a device behind the Pi
reaches the internet through a WireGuard tunnel brought up by NetworkManager.

- `src/` is the verified library (Verus):
  - `text`: Unicode whitespace, trimming, splitting on a separator;
  - `config`: the configuration model and the WireGuard interface name;
  - `setup`: the configuration that the setup arguments describe;
  - `routing`: the NAT setup as a state machine over `iptables` outcomes;
  - `network`: the NetworkManager WireGuard profile and tunnel lookup.
- `app/` is the command-line program: argument parsing, the TOML file,
  NetworkManager calls and the `iptables` processes.
- `tests/` runs the library on concrete values.
