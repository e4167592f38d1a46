# rustproc

The core of RustProc Shell, an interactive terminal shell with a live
system monitor, its behaviour stated in contracts and proved.

- `src/text.rs`: Unicode whitespace, trimming, line and word splitting,
  decimal formatting and parsing, each against a specification over
  character sequences.
- `src/shell/router.rs`: classification of a command line into built-ins,
  AI commands and external commands.
- `src/shell/history.rs`: the command history and its up/down navigation.
- `src/shell/mod.rs`: the session state machine driven by key presses, the
  dispatch decision for an entered command, and the bounded output buffer.
- `src/commands/`: output lines, the built-in commands, the OpenCode
  assistant commands and external commands: what each checks and what it
  shows for what the system returned.
- `src/system.rs`: parsing and choices behind the telemetry pane.
- `src/ui.rs`: screen layout, text fitting, and the drawing operations for
  the frame, panels, shell output and prompt.
- `app/`: the program around the library: terminal input and output, files,
  processes, environment, sysinfo readings, and the figures that are
  floating point numbers.
