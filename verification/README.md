# gate_server

A gate server for an online game: game clients connect to it, it asks the
group server about logins and characters, and it passes packets between the
clients and the game servers that run the maps.

The library under `src/` is written in Verus and proved correct against its
contracts:

- `packet`: the packet codec (a length, a header carrying the session id, a
  command, then the data, every number most significant byte first), the typed
  packets of the protocol, and a compact record format (`packet::parser`).
  `packet::laws` and `packet::parser::laws` state what reading gives back of
  what writing wrote.
- `network`: session ids and the bookkeeping of remote calls (`rpc`), and what
  a connection does with the bytes it receives and when it sends a heartbeat
  (`tcp_connection`).
- `gate`: this gate's decisions on packets from clients, the group server and
  game servers, the list of game servers with its rules (unique names, no map
  on two servers), and the player record.
- `wire`, `text`: the byte and text encodings the contracts are stated over.
- `bytes_buf`, `byte_order`, `clock`: the calls into the `bytes`, `byteorder`,
  `chrono` and `tokio` crates, each with the contract the library relies on.

`app/` holds the program around the library: sockets and tasks (tokio),
configuration files (serde, serde_yaml), logging, metrics (prometheus) and the
HTTP endpoint that serves them (rouille).

The protocol as written here has no command numbers for a game server
announcing a map entry to this gate, for passing that entry on to another game
server, or for telling the group server that a player entered a map; those
messages are neither read nor sent.
