# gcups

Driver logic for GreenCell UPS devices (MEC0003 descriptor HID, Cypress HID
Megatec/QS, Prolific serial Q1), verified with Verus, and the `gcups`
command-line tool around it.

- `src/` is the verified library: report framing and decoding, the Cypress
  `T` binary frame, the status register, shutdown-delay quantisation, what
  each transport sends for a command, device selectors and device choice,
  the decisions inside the transfer loops, and the CLI's argument parsing,
  exit codes and `watch` logic. Every public function carries a contract;
  the `law_*` proof functions state properties that span functions.
- `app/` is the tool: USB (`rusb`) and serial (`serialport`) I/O, the
  floating-point readings, printing, JSON output and the `clap` command line.
- `tests/` runs the library on concrete inputs.
