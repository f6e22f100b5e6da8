# hash_checker

A file integrity checker: it computes MD5, SHA-1, SHA-224, SHA-256, SHA-384,
SHA-512 or CRC32 digests and compares them with a checksum file found next to
the file, a checksum file the user picks, or a hash typed by hand. It runs as a
window (one file or several at once, with right-click integration on Windows
and Linux desktops) or on the command line (exit code 0 when the file matches,
2 when it does not, 1 on error).

## Layout

- `src/` is the library, verified with Verus:
  - `text.rs`: character-sequence helpers (trimming, splitting into lines,
    searching, replacing) with their specifications;
  - `hasher.rs`: the algorithms and the digest of a byte sequence as lowercase
    hexadecimal (the digests themselves come from the `md5`, `sha1`, `sha2`,
    `crc32fast` and `hex` crates);
  - `checksum.rs`: checksum files — candidate names next to a file, the
    algorithm a name announces, the line formats, the entry for a file;
  - `verify.rs`: comparing hashes, typed hashes, what to check a file against;
  - `multi.rs` and `session.rs`: the window's state machines (several files:
    review, typed hashes, verification, results; one file);
  - `integration.rs`: what the right-click integrations write and remove, and
    whether they are installed;
  - `language.rs`: language packs (TOML files read with `toml`, the repository
    listing read with `serde_json`) and the choice of the interface language;
  - `ipc.rs`: the single-instance channel's port file and messages;
  - `cli.rs`: what the command line asks for.
- `app/` is the program around it: argument parsing (clap), files, network,
  registry, threads and the egui window.
- `tests/` runs the library on concrete values.
