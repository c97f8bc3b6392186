# portal

A QUIC tunnel: the client listens on local TCP ports and forwards each
connection through a QUIC stream to the server, which connects to the target
if its access control list allows it.

`src/` is the verified library (Verus):

- `aclutil` — ACL rules, their arrangement by priority and file position,
  first-match evaluation with default deny, reading actions and port entries,
  and the HCL text of a list.
- `netaddr`, `pattern` — addresses and networks as numbers (parsing and
  containment by `core::net` and `ipnet`), case-insensitive host patterns
  (by `regex`).
- `util` — connection and stream identifiers, the 4-byte big-endian length
  prefix of frames, string frames, sizes in binary units (by `humansize`),
  values with string attributes, string maps as JSON (by `serde_json`).
- `requests`, `messages` — requests and responses, the server's decision on
  a request, the client's check of the server's metadata.
- `client_stats`, `server_stats`, `client`, `server` — counters, statistics
  lines, server names and forwarding specifications.
- `text`, `decimal`, `stringmap` — characters, decimal numerals, and a map
  of strings.

`app/` is the program around it: command line, QUIC and TCP I/O, the ACL
file, serde copies of the library's types, and typed extensions.
