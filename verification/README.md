# auto_cursor

A toolkit for managing Cursor editor accounts: the saved account list, switching and logging
out, backing up and restoring Cursor's settings and workspace storage, reading past
conversations, and driving account registrations (verification codes from several mailbox
services, phone-number and bank-card settings, batch runs).

## Layout

- `src/` is the library, written in Verus. Every function carries a `requires`/`ensures`
  contract that Verus proves. Calls into outside crates (regex, chrono, encoding_rs, rand,
  urlencoding) go through the trusted wrappers in `src/outside.rs` and a few in
  `src/registration.rs`, each with a doc comment that says what is believed of it.
  - `text`, `numbers`, `json`: strings, decimal and hexadecimal text, a JSON value and its
    mathematical view.
  - `accounts`, `storage`: the account list, and the login fields of `storage.json` and of
    Cursor's SQLite table.
  - `backup`, `conversations`: backup plans and lists, the table of running backups, and
    conversations read from Cursor's stored JSON.
  - `registration`, `batch`, `mail`: the decisions of a registration run, batch bookkeeping,
    verification codes in mails, mailbox URLs and polling schedules.
  - `cursor_info`: where Cursor's version is read from.
  - `sorting`, `keyed`: a stable sort and key-unique lists, with their laws.
- `app/` is a command-line front end in ordinary Rust: file, SQLite and process I/O, serde
  conversions, and the loops that perform what the library decides.
- `tests/` runs the library on concrete values.
