# Budget Master 9000 — verified budget rules

A private, offline monthly budget. This crate holds the budget's decisions
that do not involve money amounts, each with a contract checked by Verus:

- `src/classify.rs` — which plan lines are fixed bills, stored frequencies,
  category colours.
- `src/rules.rs` — category saving and removal, the app lock, the wipe
  confirmation, closed months, schema upgrades.
- `src/version.rs` — reading release versions and deciding which is newer.
- `src/update.rs` — the update report and how an upgrade package is built.
- `src/checkin.rs` — the amount-free parts of the Check-In scorecard.
- `src/shell.rs` — the command line, start page and database location.
- `src/models.rs`, `src/text.rs` — shared records and string helpers.

`app/` is the program around it: the SQLite store, the floating-point
amounts, HTTP and zip files, and the command line.
