# layoutswap

Saves a Windows monitor arrangement as a named layout and switches back to it by
running a PowerShell script the library writes for that layout. The scripts run on
their own too, from a shortcut.

- `src/` is the library, checked by Verus: the name and folder rules, how a probe
  becomes a summary and a layout, the steps around the apply and the sentence each
  reads as, the script renderer and its timeline, the progress line format and its
  parser, the lock file, the switch as a sequence of decisions, verify, capabilities
  strings, and the config's schema rule.
- `app/` is the program around it: the config file, the PowerShell runner, the
  diagnostics zip, the app log, and a command line that drives the library.
- `tests/` runs the library on concrete values.
