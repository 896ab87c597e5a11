# startchatgpt

A Windows launcher for the packaged ChatGPT desktop app (`OpenAI.Codex`):
it finds the newest installed version, starts it with the saved proxy
setting, shows a splash screen until the ChatGPT window appears, and then
shows the remaining Codex quota in the notification area until ChatGPT
exits. `--usage-only` shows only the quota, without starting ChatGPT;
`--usage-widget` shows it in a small two-row window instead of the tray.

The decisions and data handling are a library verified with Verus (`src/`);
the Win32 windows, process handling and file access around it are ordinary
Rust (`app/`).

## Layout

- `src/text.rs`, `src/decimal.rs`: string helpers (trimming, splitting,
  ASCII case, decimal numerals) with their models over `Seq<char>`.
- `src/config.rs`: the proxy setting, its validation and the one-line text
  it is stored as; saving and reading back give the same setting.
- `src/package.rs`: package directory names, numeric version order and the
  choice of the newest installed package.
- `src/launch.rs`: the launcher's own command-line options, the fallback
  between the two ways of locating ChatGPT, and the wait for its window.
- `src/command_line.rs`: the quoted UTF-16 command line used to activate the
  packaged app; the C runtime's argument rules split it back into the
  very arguments that were joined.
- `src/packaged.rs`: the registered app record that PowerShell prints.
- `src/settings.rs`: the settings window as a state machine over button
  commands.
- `src/usage.rs`, `src/display.rs`: the quota reader's decisions, quota
  window names, and what the tray icon, quota window and splash show.
- `app/`: `main`, the Win32 user interface, file and process I/O, and the
  quota arithmetic on floating-point percentages.
