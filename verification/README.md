# modbus_toolbox

A terminal tool for Modbus devices over TCP and serial lines: it is a server
with registers that can change by themselves, a client that reads and writes a
device, and a monitor that keeps the frames it sees.

- `src/` is the library, verified with Verus: the register formats, the frames,
  the worker behind a server, the rounds of a client, the simulator, the
  profiles, and what each key does to the menus and to the screen.
- `tests/` runs it on given values.
- `app/` is the program around it: sockets, serial lines, files, the terminal,
  the texts of the languages (TOML files under `locales/`) and floating point.
