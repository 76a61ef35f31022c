# smarthome_mcp

An MCP server that connects MCP clients to Home Assistant and Zigbee2MQTT,
with the rules it runs by written in Verus and proved.

## Layout

- `src/` — the verified library.
  - `auth/` — scopes and the tools they guard; the IP whitelist, static
    tokens and proxy validation with its token cache; the resolver that
    tries them in order; what the HTTP layer refuses.
  - `config.rs` — the configuration and the environment overrides.
  - `z2m/` — the Zigbee2MQTT client's broker address, topics, the meaning
    of each incoming topic and the cache that messages fill; `payload.rs`
    checks a payload against the device's exposes (unknown fields, allowed
    values, the error list). Only the comparison of numbers against a
    field's bounds, which is floating point, is made in `app/`.
  - `ha/` — the Home Assistant URLs and templates, and domain filtering.
  - `backend_status.rs` — backend reachability and overall health.
  - `util.rs`, `text.rs`, `table.rs` — list parsing, string helpers, and a
    small table keyed by name.
  - `json.rs` — `serde_json::Value`, carried through opaquely, and the
    trusted calls that parse a payload and read a member of it.
- `app/` — the program: reading the TOML file and environment, HTTP with
  reqwest, MQTT with rumqttc, the tower auth layer, the MCP service and the
  `/health` route.
- `tests/` — tests of the library.

Laws that span several functions stand in `src/` as public proof
functions named `law_*`.
