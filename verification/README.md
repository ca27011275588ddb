# ckptmini_tui

A terminal front end for the `ckptmini` checkpoint/restore tool, with its logic verified by Verus.

- `src/` — the verified library: parsing of `/proc` entries, memory maps and checkpoint
  directories; the tool's argument lists and how a run's outcome is read; the interface state
  and how every key answers (next state plus the work to perform); what each panel shows.
  Laws proved there include the sorting and listing orders, the capped log, the tab cycle, that
  no key moves a list cursor off its list, that keys only ask for work on what is listed and
  selected, that searches show exactly what matches, that sorting twice changes nothing, that
  joined tool outputs parse as both, and that checkpoint directories never collide.
- `app/` — the program: terminal setup, the event loop, running the tool, file-system access
  and drawing with ratatui.
- `tests/` — tests of the library on concrete values.
