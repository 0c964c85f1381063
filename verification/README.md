# lanzou_next

A desktop client for the Lanzou cloud drive. Its core is a library verified
with Verus; a thin Tauri program around it does the I/O.

## Layout

- `src/` — the verified library:
  - `text.rs` — string specifications and verified string helpers;
  - `pattern.rs` — regular-expression searches (the `regex` crate);
  - `matcher.rs` — the anti-crawler challenge answer and page scraping;
  - `client.rs`, `login.rs` — cookie jar, browser hints, reply checks,
    signing in;
  - `config.rs`, `log_policy.rs` — settings and log levels;
  - `listing.rs`, `ops.rs`, `recycle.rs`, `profile.rs` — the account's files,
    operations, recycle bin and profile;
  - `share.rs` — share links, direct links and shared folders;
  - `download.rs`, `upload.rs`, `merge.rs` — transfers: resume, chunking,
    part names and merging;
  - `update.rs` — release choice and installers.
- `tests/` — tests of the library.
- `app/` — the Tauri program: commands, HTTP, files, settings storage, tray.

Every function of the library states its result in its contract, as far
as it does not rest on the outside world: where an answer comes from the
disk, the network or chance (whether a path is taken, a random suffix), the
contract says what is returned for each answer, or what holds whatever the
answer was. The laws
that span functions (for instance that merging the parts of a split upload
gives back the file's name, or that settings read back as written) are proof
functions named `law_*`.
