# mcp-irc-client

A minimal MCP (Model Context Protocol) server that gives an AI agent an IRC
presence: connect to a server, join channels, send and receive messages, over
newline-delimited JSON-RPC on stdin and stdout.

The servers, the nick and the channels are pinned on the command line:

```sh
mcp-irc-client --server host[:port] [--server ...] --nick NICK --channel '#chan' [--channel ...]
```

## Layout

- `src/` is the client's logic on plain values, verified with Verus.
  - `pinned`: the command line and what it pins
  - `irc`: lines of the protocol and what a reader is told of them
  - `state`: what the client knows; lines as they arrive, and the server's end
  - `connect`: dialing the servers in turn, registering, joining
  - `tools`: sending, receiving, status, quitting
  - `json`, `mcp`: JSON values, requests and their answers
  - `text`: searching, splitting and joining text, decimal numerals
  - `laws`: what holds of the client as a whole
- `app/` has the sockets, the threads and the clock.
- `tests/` runs the library on examples.

JSON is read and written by `serde_json`; `src/json.rs` says what is taken on
trust of it, and `src/irc.rs` what is taken on trust of `str::to_uppercase`.
