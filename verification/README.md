# maint

Maintainer utilities for the 2 package manager: adding, generating,
revising, updating, viewing, removing, moving, copying, aliasing and
restoring the packages of a port tree (`/usr/ports/REPO/NAME`, with a
`BUILD` shell file each).

- `src/` is the library, written in Verus: argument parsing, reading a
  package from its `BUILD`, the source hashes, where downloads go, and every
  decision and every command text of the operations, each with its contract.
  SHA-256 (`sha2`), Base64 (`base64`) and the standard library's path
  parent, path equality and path `Debug` form are called through small
  trusted wrappers whose contracts are stated in `src/hash.rs` and
  `src/paths.rs`.
- `app/` is the program: command line (`clap`), the filesystem, downloads
  (`ureq`, `indicatif`), the lock file (`serde`, `toml`) and running bash.
- `tests/` runs the library on concrete values.
