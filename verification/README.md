# Finvoroo Print Agent

Local silent printing for Finvoroo ERP: a tray agent on each till PC that
listens on `127.0.0.1:17392`, pairs with the Finvoroo web app through a
six-digit PIN, and prints PDF, HTML, ESC/POS, ZPL and raw jobs without a
browser dialog.

## Layout

- `src/` — the verified library (Verus). Every rule of the agent lives here
  with its contract:
  - `auth` — install tokens, credential comparison, the origin allowlist,
    reading credentials and origins from request headers;
  - `pairing` — one-time PINs with a one-minute lifetime;
  - `config` — the persisted settings, pairing bookkeeping, version tracking,
    and rebuilding a damaged configuration file;
  - `server` — the decisions of the HTTP API: authentication, pairing,
    duplicate-print throttling, request validation, status reports;
  - `print` — job kinds, payload decoding, printer classification, test
    pages, per-platform print plans, CUPS output parsing (`print::macos`),
    and the ESC/POS raster pipeline (`print::escpos_raster`);
  - `updater` — when a downloaded update may be installed;
  - `external` — the trusted boundary: every call into `base64`, `getrandom`,
    `hex`, `http`, `serde_json` and the parts of `std` without a
    specification, each with the contract it is taken on.
- `tests/` — executable tests of the library.
- `app/` — the tray application around the library: Tauri windows and
  commands, the axum HTTP server, configuration files, the operating
  systems' spoolers (Win32, WebView2, CUPS `lp`), and the update loop.

Each public proof function whose name starts with `law_` states a property
of the library as a whole (for example that a PIN is accepted only once, or
that recording the same origin twice is recording it once).
