# geohog

A terminal dashboard that lists the TCP connections of the machine, the
processes behind them, and where their remote ends are.

- `src/` is the library, verified with Verus: the keyed FIFO queue
  (`collections`), address classification and canonicalization (`net::ip`),
  the connection tables (`net`, `net_client`, `net::net_proc`), the
  bookkeeping of geolocation lookups and the splitting of queued lookups
  into batch and single requests (`net::ip_api`, `net::geolocate`,
  `net::dispatch`), and the reading of country records (`geography::map_load`,
  `map_load`).
- `app/` is the program around it: the terminal interface, command-line
  parsing, logging, reading the socket, process and shapefile data, and the
  HTTP queries to ip-api.com.
- `tests/` exercises the library on concrete values.
