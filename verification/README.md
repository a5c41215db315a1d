# socksx

A SOCKS toolkit: SOCKS5 (RFC 1928, with username/password authentication
from RFC 1929) and SOCKS6 (draft-olteanu-intarea-socks-6-11), with proxy
chaining for SOCKS6.

The library (`src/`) holds the protocol: every message's wire form, its
decoding, and the decisions of clients and servers. It is verified with
Verus: each decoder is proved to compute a mathematical specification of
the format, each encoder to produce it, and the two to be inverse where the
format allows (options, addresses, requests, replies, authentication).

- `addresses`: destination and proxy addresses, their wire form and text.
- `ip`: IP addresses and their textual form (dotted decimal, IPv6 groups).
- `credentials`: username/password credentials.
- `socks5`: requests, replies, the client's negotiation and the server's guard.
- `socks6`: options, requests, replies, the client's checks, chains and routing.
- `text`, `wire`: UTF-8 and byte-level helpers.

Decoders read from the front of a byte buffer and report either a value and
the number of bytes it took, or how many more bytes they need
(`SocksError::Incomplete`), so that a network layer can read exactly what
each message needs.

`app/` is the proxy server program: command line, sockets, and the async
exchange that drives the library's decoders and decisions. The order of a
server's steps comes from the library too: the SOCKS5 guard's
`sub_negotiation_needed` and `auth_outcome`, the SOCKS5 client's
`authentication_step`, and the SOCKS6 server's `setup_actions`; `app/`
performs each step's I/O.
