# email-mcp

A multi-account email server for the Model Context Protocol (Gmail, Outlook,
iCloud), speaking JSON-RPC over stdio. The logic is a Verus library with
proved contracts; the program around it does the I/O.

## Layout

- `src/` — the verified library (`email_mcp`)
  - `config.rs` — providers, accounts, the account store and the
    authorizations in progress, with the laws of the store
  - `json.rs` — JSON documents and their mathematical values
  - `text.rs` — characters, trimming, searching, decimal numbers
  - `codec.rs` — base64, SHA-256, random bytes, percent-encoding and JSON
    string literals, each a trusted call into its crate
  - `oauth.rs` — PKCE, authorization URLs, the callback request, token forms
    and token bookkeeping
  - `gmail.rs`, `outlook.rs` — request addresses and the reading and
    building of API documents
  - `headers.rs`, `icloud.rs` — header blocks, raw messages, IMAP
    message selection and the building of messages sent by SMTP
  - `tools.rs` — the tool list and what each tool call does
  - `mcp.rs` — what each JSON-RPC request is answered
- `app/` — the program: stdio loop, HTTP, IMAP/SMTP, the local OAuth
  listener and the accounts file
- `tests/` — tests of the library

Verify with `verus`, build the program with cargo.
