# remouseable

Use a reMarkable tablet stylus as a host-computer mouse: the tablet's Linux
Evdev stream is read over SSH (or from a captured file), turned into pointer
moves, drags, clicks and pen frames, and injected into the host.

## Layout

- `src/` is the verified library (Verus). Each module states its behaviour in
  `requires`/`ensures` contracts over spec functions, and proves its laws as
  public proof functions:
  - `event` decodes 16-byte records and selects or filters event types;
  - `state` turns events into moves, drags, clicks and releases;
  - `pen` assembles pen frames and normalizes them for the host;
  - `runtime` dispatches state changes to a host driver;
  - `scale`, `app` pick the per-orientation axes and write JSON Lines;
  - `driver`, `uinput`, `hyprland`, `windows_pen` hold the decisions of the
    host backends (monitor choice, relative and absolute device signals,
    compositor output, synthetic pen packets);
  - `ssh`, `options`, `text` parse addresses, settings and prompts.
- `app/` is the program around it: argument parsing, SSH transport, device
  backends, and the floating-point pointer scaling.
- `tests/` exercises the library from outside.

The program runs in terminal mode only; it has no graphical interface. The
input checks of a settings form (`parse_orientation`, `parse_host_driver`,
`parse_pressure_threshold`) are in the library. Windows synthetic pen
injection (windows_sys) is not built in either; its decisions and packet
contents are verified in `src/windows_pen.rs`, and an automatic driver choice
falls back to Enigo when the pen backend cannot be opened.

Traits that callers implement (byte readers, text outputs, position scalers,
host and pen drivers) state their behaviour through spec functions that an
implementation opts into (`obeys_stream`, `obeys_output`, `obeys_scaling`,
`obeys_history`); the library's contracts about an implementation hold when it
declares them, and promise nothing about one that does not.
