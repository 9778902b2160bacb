# rusty_ddns

A dynamic DNS client for Cloudflare: it finds the host's public IPv4 and/or
IPv6 address and writes it to the A and AAAA records of a name, creating
missing records only when `--allow-create` is given.

The library under `src/` is verified with Verus:

- `ip/`: IPv4/IPv6 addresses and which of them may be published
  (`addr.rs`), their textual forms, dot-decimal and RFC 5952 (`format.rs`),
  reading both notations back (`parse.rs`), the proof that the text written
  for an IPv6 address reads back as that address (`round_trip.rs`), and the
  choice of an address among the host's interface addresses (`host.rs`).
- `update.rs`: update requests and results, error classification, and the
  registrable part of a record name.
- `cloudflare/`: choosing the zone of a record (`zones.rs`), the API requests
  and the reading of their replies (`api.rs`), and the update session that
  strings them together as a state machine (`session.rs`), with its laws.
- `text.rs`: the specifications of numerals, dots and labels shared by the
  modules.

`app/` is the command-line program: argument parsing, logging, listing the
network interfaces, and the HTTP calls that the update session asks for.
