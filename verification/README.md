# hindsight_desktop

The supervision logic of the Hindsight menu-bar app, verified with Verus.

- `src/text.rs`: substring search, decimal rendering and parsing of `u16`,
  Unicode whitespace trimming, each against a specification over `Seq<char>`.
- `src/http.rs`: the `GET` requests sent to the local daemon, the health check
  on the reply's status line, and the API version read from `/version`.
- `src/supervisor.rs`: the `hindsight-embed` command lines (profile, daemon
  start, control center), the daemon-start and control-center steps as state
  machines, the control-center port, token and address, and where an
  installed `hindsight-embed` is looked for.
- `src/tray.rs`: the tray's status line, icon and Start enablement, the menu
  commands, and when the status poll repaints.
- `app/`: the program around the library: sockets, child processes, the
  environment, files, the browser and the Tauri tray.
