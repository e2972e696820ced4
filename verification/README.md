# ledger

A household ledger backend: card and bank statement import, duplicate
detection, card benefit accounting, a Telegram bot for quick entries, and
resale (KREAM) bookkeeping.

- `src/` is the verified library. Every function there carries a contract that
  Verus proves; calls into chrono, csv, sha2, uuid and argon2 go through small
  trusted wrappers whose contracts are documented where they stand.
- `tests/` runs the library on concrete values.
- `app/` is the HTTP server, database access, file watching and spreadsheet
  reading around the library.
