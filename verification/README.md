# rover

Verified logic of a lane-following rover: the wire protocol its processes speak,
and the decisions they take on what arrives over it.

- `src/` is the library, verified with Verus. It touches no socket, clock, file
  or floating-point unit: real numbers travel as IEEE 754 bit patterns, time
  arrives as an argument, and whatever arithmetic makes of a sample is handed in.
- `app/` holds the programs around it: sockets, serial ports, files, the command
  line, and the floating-point arithmetic of the filter and the controllers.
- `tests/` runs the library on concrete values.

| Module | What it decides |
| --- | --- |
| `msgs` | message layouts, frames, flags |
| `link` | services, addresses, what a link lets through |
| `bus` | routing, newest-wins streams, the command handshake |
| `control` | estimator bookkeeping, guard rails, safety interlock, the control cycle |
| `nav` | GNSS sentences, fix assembly, the mission state machine |
| `telemetry` | health flags, logs, run directories, the feed to the base |
| `station` | operator commands, the dashboard |
| `tap` | decoding any frame, rates and losses |
| `doctor` | the preflight verdicts |
| `text`, `csv`, `calendar`, `reals`, `percent` | what the others are built on |

Two functions of the standard library are taken on trust: `String::push`
(`src/text.rs`) and `String::from_utf8_lossy` (`src/nav/lines.rs`).
