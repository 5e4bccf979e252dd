# ncrs

A netcat-style tool: TCP and UDP clients and listeners, Unix sockets, port
scanning, SOCKS4/SOCKS5/HTTP CONNECT proxies, Telnet option refusal, CRLF
conversion and optional TLS.

- `src/` is the library, verified with Verus: reading the command line into a
  run plan, port lists and type-of-service values, IPv4 text, endpoint
  formatting and address selection, socket binding decisions and socket
  options, the proxy handshakes' bytes and checks, the line-ending and Telnet
  filters, the decisions of the full-duplex copy loops, and the TLS
  credential checks. Its contracts are stated over `Seq`, `Option` and
  spec functions; the proof functions named `law_*` state properties that
  span calls.
- `tests/` runs the library on concrete values.
- `app/` is the program around it: argument parsing with clap, name
  resolution, sockets, the async loops driven by the library's decisions,
  `setsockopt(2)` and descriptor passing, and the TLS files.
