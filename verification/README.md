# port_checker

A command-line tool that reports which ports are in use, which process holds
them, and that allocates or reserves ports. The library under `src/` holds its
logic with Verus contracts:

- `text`, `numeric`: the string and integer operations the parsers rely on
  (line and word splitting, trimming, searching, `from_str_radix`, decimal
  formatting), each against a specification.
- `scanner`, `tables`: parsers for `/proc/net/*`, `netstat`, `lsof` and
  `tasklist` output, and the assembly of a full scan per platform.
- `report`: looking up one port, filtering listings, statistics, and the small
  decisions of the commands.
- `formatter`: table, CSV and one-line renderings.
- `config`: settings, output formats, settings-file locations.
- `port_manager`: the port allocator's decisions, command lines run on a
  reserved port, and a simulated port for tests.
- `laws`: properties that span several functions.

`app/` is the program itself: argument parsing, reading the system tables,
running commands, sockets, serialization and printing.
