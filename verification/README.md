# m5ctl

Power-mode and fan control for the Sixunited AXB35-02 board (Bosgame M5 and
relatives), talking to the `ec_su_axb35` kernel driver over sysfs.

The library under `src/` is verified with Verus:

- `text` — Unicode whitespace trimming, decimal formatting, the integer
  grammar of `str::parse`, comma splitting.
- `sysfs` — the driver's attribute paths, how an attribute's text is read,
  what each setting writes, and that reading back a written level, curve or
  mode gives what was written.
- `app` — the controls: focus order, key handling as a step function
  (`App::on_key` returns the write and refresh it asks for), the curve
  editor, the status line.
- `history` — the rolling one-minute series behind the graph.
- `report` — command-line parsing, the `get` and `json` reports, the
  wording of the screen's panels.

`app/` is the program around it: file I/O, the hwmon sensors (fractional
numbers), the event loop and drawing with ratatui and crossterm.
