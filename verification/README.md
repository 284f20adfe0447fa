# oniondownoda

A terminal downloader for `.onion` URLs over Tor, with its core verified by Verus.

- `src/` — the verified library:
  - `app` — application state (input line, downloads, log) and its transitions
    for key presses, pause/resume and download progress reports; `format_bytes`.
  - `downloader` — file names from URLs, free-name candidates, ranged-download
    support, the parallel chunk plan, header and temporary-file names.
  - `tor` — the proxy's socket address and the HTTP clients (through reqwest).
  - `config` — merging command line, configuration file and defaults.
  - `ui` — display rules: layout by width, log window and colours, icons,
    progress bar figures and labels.
  - `clock`, `text`, `error` — wall clock, text helpers, error type.
- `app/` — the program: terminal set-up, key reading, the tokio download
  engine, ratatui drawing, clap and TOML loading.
- `tests/` — tests of the library on concrete values.
