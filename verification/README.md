# lerobot_mcp

A Model Context Protocol server that gives LLM clients access to the LeRobot
robotics datasets on the Hugging Face Hub. The decisions of the server are a
library verified with Verus; the program around it is ordinary Rust.

## Layout

- `src/` — the verified library.
  - `cli.rs` — the command-line grammar (options, `serve` and `search`
    commands, defaults and environment fallbacks) as a spec and a parser
    proved against it.
  - `client.rs` — the URLs of the Hub and datasets-server endpoints, the
    percent-encoding of their parameters, the authorization header check and
    the mapping of failed responses to errors.
  - `types.rs` — the API records and the extraction of LeRobot metadata from
    dataset cards and from the `meta/info.json` dump in descriptions.
  - `search.rs` — post-filtering of search results by robot type and episode
    count, and their markdown rendering.
  - `server.rs` — parameter checks and answers of the MCP tools.
  - `size_format.rs` — human-readable byte sizes.
  - `json.rs`, `text.rs`, `error.rs` — a JSON model, character helpers and
    the error type.
- `tests/` — tests of the library.
- `app/` — the executable: argument and environment reading, logging, HTTP
  requests, JSON decoding into the library's records, and the MCP transport.
