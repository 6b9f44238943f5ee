# Brewster

A temperature controller for brewing: the decisions of its firmware and of its
LAN server as a library verified with Verus, and the programs around it.

- `src/firmware`: the device. Its configuration file, probes on a 1-Wire bus, the
  control of the relays, temperature profiles, what is kept in flash, status
  documents, and the network side: HTTP, mDNS, NTP, telemetry and Wi-Fi.
- `src/server`: the server. The telemetry packet, the history and its file,
  thinning out of curves, announcements and the dashboard's documents.
- `src/text.rs`, `src/bytes.rs`, `src/dns.rs`: what both sides build on.
- `tests`: the library on concrete values.
- `app`: sockets, files, pins, flash and floating point.

Temperatures are hundredths of a degree, or sixteenths where they come from a
probe. Time is handed in: clock ticks with their rate on the device,
nanoseconds since 1970 on the server.
