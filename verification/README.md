# can-utils-rs

Tools for Linux SocketCAN interfaces: set up native, SLCAN and virtual CAN
interfaces, dump CAN traffic in colour, and send frames.

The library (`src/`) is written in Verus. Its functions state what they
return in `requires`/`ensures` and are proved against that statement; what
comes from `owo_colors` and `socketcan` rests on the contracts of a few
trusted wrappers around their calls:

- `text`: trimming, splitting, line and word breaking, number rendering and
  parsing on character sequences, with their round trips.
- `colors`: the terminal escape sequences around coloured text.
- `dump`: dump filters in candump notation (`id[:mask],...`), the dump
  banner, interface detection from a link listing, and the coloured frame
  line.
- `send`: the frame a user types (identifier and payload), its renderings,
  the timing of cyclic sends, and the socketcan frame built from it (its
  identifier and payload as the frame reports them back).
- `setup`: interface configurations, the commands that set up, bring up or
  remove an interface, the command preview, prerequisites and their
  installation plan, and serial adapter detection.
- `ui`: the state machines of the terminal interface (menu, set-up wizard,
  live dump); the caller draws them and performs what they ask for.

Proof functions named `law_*` state properties that hold across calls,
such as that the preview of the commands is what runs, or that a filter
written in candump notation reads back as itself.

`app/` holds the program around the library: prompts, processes, sockets
and the ratatui/crossterm terminal interface. `tests/` exercises the library
on concrete values.
