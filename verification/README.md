# utensil

An Android battery and idle policy daemon, as a verified library (`src/`)
with thin programs around it (`app/`).

`src/` holds the logic, each function with a contract that Verus proves:

- `text`: trimming, searching, lines, decimal numbers.
- `config`: the `key=value` configuration, its defaults and its printed form;
  `readback` proves that the printed configuration parses back, and
  `setting_keys` that parsing keeps every setting no line sets and takes
  each other one from its last line.
- `learning`: the charge-level history and the trimmed-mean threshold.
- `runtime`: the daemon's state and its policy steps; each step returns the
  commands to run and records what it did, so that it acts only on a change.
- `android`: reading what Android tools, properties and `/proc` report.
- `idle`: the device idle history table.
- `webui`: the web UI bridge: page patching, the marker and thermal requests
  answered from the configuration file, and HTTP framing.
- `cli`, `supervisor`: the command words of the tool and the restart policy.

`app/` runs commands, reads and writes files and properties, and serves the
bridge over TCP; `tests/` exercises the library on concrete values.
