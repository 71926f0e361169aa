# obd_core

OBD-II diagnostics through an ELM327 adapter (Fiat Grande Punto / generic
EOBD), as a Verus-verified library and a small command-line program.

- `src/` — the library, every function with a contract proved by Verus:
  - `dtc`: decoding of Diagnostic Trouble Codes from their two bytes, the
    description table, and parsing of Mode 03/07/0A replies;
  - `pid`: decoding of Mode 01 PID values into text with units;
  - `obd`: the decoding of each session request's reply (mode byte, hex
    bytes, supported-PID bitmap, Mode 04 acknowledgement);
  - `elm327`: the checks of the adapter's AT and OBD replies;
  - `transport`: the framing of commands and the splitting of replies into
    lines, up to the adapter's prompt;
  - `cli`: the PID argument of the command line;
  - `text`: text and number specifications shared by the modules;
  - `laws`: properties of the library as a whole.
- `app/` — the program: serial port I/O, the adapter session, and the CLI.
- `tests/` — tests of the library on concrete values.
