# smcp

SMCP is a suite of Model Context Protocol servers: Gmail over IMAP/SMTP and
a Bitwarden vault through the `bw` command line. This crate holds its core
as a Verus library: what the tools decide (which mailbox, which IMAP
commands, what is read from a message, what a reply says, when credentials
are saved, what a vault listing shows) is stated in contracts and proved.
Parsing MIME and JSON, checking addresses and Unicode lowercasing are left
to `mailparse`, `serde_json`, `lettre` and std behind named results; the
network, files and processes are in `app/`.

## Layout

- `src/text.rs` — string primitives (trim, prefixes, line splitting, ASCII
  case, decimal) with specifications over `Seq<char>`.
- `src/setup.rs` — credential input checks, the credential file formats,
  reading them back, and the laws that saved credentials are read back.
- `src/servers/workspace/gmail.rs` — mailbox names, search queries,
  newest-first UID selection, UID sequence sets, mailbox actions,
  credential resolution and the failure replies.
- `src/servers/workspace/message.rs` — header fields (via `mailparse`),
  check summaries, the read report (body and attachments), reply metadata,
  sender display names.
- `src/servers/workspace/outgoing.rs` — From headers, reply address,
  subject and threading headers, attachment names and MIME types, address
  checks (via `lettre`).
- `src/servers/workspace/flows.rs` — the IMAP tools as step machines:
  each step's outcome decides the next IMAP command or the tool's reply
  (checking, reading, managing, looking up a message to reply to, and
  finding the name the account sends under).
- `src/servers/bitwarden/mod.rs` — master password sources, the session
  cache, `bw` argument lists, replies, reading and printing JSON (via
  `serde_json`), the simplified item list, new login items, and saving the
  master password after a successful unlock.
- `app/` — the `smcp` binary: command line, MCP stdio servers, IMAP, SMTP,
  files and processes.
- `tests/` — tests of the library on concrete values.
