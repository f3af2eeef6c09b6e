# zo_tunnel

A self-hosted reverse tunnel: a server on a VPS exposes services that clients on other
machines forward to it over one multiplexed connection each.

The decisions of the system live in `src/`, written in Verus with their contracts proved:

- `server_config`, `zobite_config`, `client_config`: configuration types and their rules
  (token checks, tunnel list edits, file locations, masked tokens).
- `protocol`: framing of the control-channel messages.
- `server`: client authentication and the registry of connected clients.
- `proxy`: routing of public requests to clients, replies and forwarding failures.
- `metrics`: server counters and the per-client rate limiter.
- `dashboard`: sessions, cookies, login and logout, and the on-demand TLS check.
- `caddy`: registration with Caddy's admin API and the fallback endpoint.
- `client`, `tunnel_manager`, `web_api`, `zobite_client`: the client side (authentication
  outcome, TLS server name, reconnection backoff, the running tunnels, web API checks).
- `process`, `server_cli`, `version`: PID-file bookkeeping, command-line decisions and
  release versions.
- `text`, `clock`: string operations and time arithmetic with exact specifications.

`app/` holds the programs around the library: command lines, network and file I/O, the
async runtime, and the serde copies of the configuration types. `tests/` exercises the
library on concrete values.
