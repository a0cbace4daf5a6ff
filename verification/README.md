# debugproxy

An HTTP debugging proxy with a terminal view. Requests to configured
route prefixes are forwarded to their targets and logged (request line,
headers kept or dropped, bodies pretty-printed, decoded JSON Web Tokens),
the log is written to a file per day or per session, and a terminal view
shows it with filters per service, search, selection and copy. A small
control API and an optional AI assistant drive the same state.

## Layout

- `src/` — the verified library (Verus): routes and route lookup, the
  service filters and their keys, request logging and body formatting,
  the log file's decisions and tail reading, the viewer's key/mouse state
  machine and layout, the side panel texts, logcat line handling, the
  control commands and the JSON bodies of the control and AI endpoints,
  the AI settings, tool calls and tool actions, the AI rate limit.
- `app/` — the program around it: configuration files, the HTTP server
  (axum/reqwest), the terminal (ratatui/crossterm), the log file I/O,
  `adb logcat`, the AI HTTP calls and the screensaver animation.
- `tests/` — tests of the library.
