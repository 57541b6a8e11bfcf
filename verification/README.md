# s3cli

A command-line client for S3-compatible object storage (AWS S3, Cloudflare R2,
Backblaze B2, MinIO), with its logic verified by Verus.

## Layout

- `src/` — the verified library.
  - `config/` — providers, the configuration record, its validation, and the
    logic of `config get`, `config set`, `config list` and the `config init`
    dialogue (as a step function from question and answer to next question).
  - `storage/` — AWS Signature Version 4 signing (headers, and presigned
    links carrying `X-Amz-Signature`), object identifiers (twelve Crockford
    base-32 symbols of a random UUID), percent-encoding, and the reading of
    HTTP responses and listing bodies.
  - `commands.rs` — durations, content types, upload keys
    (`uploads/<id>.<ext>`), upload metadata and access control, download
    targets and lookup by identifier, listing patterns (globs with `*` and
    `?`), size formatting and the layout of listings.
  - `text.rs` — the string operations the rest is written with.
  - `laws.rs` — properties of the library as a whole, proved.
- `app/` — the program: argument parsing (`clap`), the configuration file
  (`toml`, `dirs`), HTTP (`reqwest` on `tokio`), the clipboard (`arboard`) and
  the terminal. It hands plain values to the library and prints what comes
  back.
- `tests/` — tests of the library on concrete values.

Hashing (`sha2`, `hmac`), random identifiers (`uuid`) and the clock
(`chrono`) are called from the library through small trusted wrappers whose
contracts name what they return.
