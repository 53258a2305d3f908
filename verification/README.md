# lijin_book

The logic of a household gift-money ledger (礼金簿), verified with Verus.
A ledger file holds several gift books; each records who gave how much,
how, when, and what was given back. Amounts are integer fen.

## Layout

- `src/` — the verified library.
  - `text.rs`: character-level string work (trimming, splitting, case,
    decimal numbers) with specifications.
  - `money.rs`: reading amounts of money exactly, in fen.
  - `sheet.rs`: finding the header row and the columns of an imported
    spreadsheet, and checking its rows.
  - `import.rs`: reading each spreadsheet row as a gift record.
  - `tags.rs`: tag names, splitting tag cells, colours for new tags, the
    tag preview of an import.
  - `records.rs`: checks and changes behind editing entries, books and tags.
  - `audit.rs`, `history.rs`: the change history and its records.
  - `revert.rs`: what reverting a recorded change writes back.
  - `trash.rs`: the kinds of item in the recycle bin and its order.
  - `order.rs`: stable sorting by a strict order, used for every list
    shown in order.
  - `search.rs`: searching entries and the ledgers a search covers.
  - `comparison.rs`: comparing people across books and ledgers.
  - `security.rs`: the administrator PIN, kept as Argon2 hashes with a
    recovery code.
  - `session.rs`: the administrator session, the lockout after wrong PINs,
    the edit lock, and the ledgers opened in a session.
  - `update.rs`: picking and checking installer updates.
  - `files.rs`, `backups.rs`, `export.rs`: file kinds, automatic backups,
    exported workbooks.
  - `generator.rs`: the colour generator for new tags, and the proof that
    it reaches every colour.
  - `models.rs`: the records the ledger exchanges.
- `tests/` — tests of the library.
- `app/` — input and output around the library: the tables of a ledger
  file and the gift books, entries, people, tags, bin and history kept in
  them (SQLite), spreadsheet files and imports, workbook export, backups on
  disk, the release feed.

Calls into other crates (Argon2, SHA-256, UUIDs, chrono, csv, std paths) stand
behind small trusted functions whose contracts say what the crates
document; everything else in `src/` is proved.
