# rustdesk_account_server

The account and address-book service of a self-hosted RustDesk deployment:
registration and sign-in, bearer sessions, personal address books, a global
`Shared devices` book whose shared passwords are sealed with AES-256-GCM, tags,
and devices that announce themselves with a share token.

- `src/` is the library, verified with Verus. It holds the rules of the API
  (`handlers`, `device`), the meaning of stored rows (`store`), the sealing of
  passwords, password hashes and session tokens (`crypto`, `encoding`), settings
  (`config`), the records (`model`, `error`) and string handling (`text`).
  Calls into `aes-gcm`, `argon2`, `base64`, `sha2`, `rand`, `serde_json` and
  `uuid` stand behind small trusted wrappers whose contracts say what those
  crates return.
- `app/` is the server around it: configuration from the environment, the
  SQLite statements, the axum routes over TLS, and shutdown.
- `tests/` runs the library on concrete values.
