# uv_pspf

Building blocks of the Pyvider Secure Package Format (PSPF), verified with Verus:
the two package footers, the archives inside a package, the signatures, and the
packages themselves, as functions from bytes to bytes.

- `src/pspf.rs`: the 76-byte footer and the package that a launcher starts
- `src/pspf_format.rs`: the 64-byte footer and the constants of its format
- `src/pspf_packager.rs`: the self-unwrapping package, a binary behind its key
- `src/commands.rs`: the package of `uv pspf package`, with the key inside the binary
- `src/archive.rs`, `src/signing.rs`: archives, digests, keys and signatures
- `src/env.rs`: environment variables given as `KEY=VALUE`
- `src/checksum.rs`, `src/le.rs`, `src/text.rs`, `src/error.rs`: shared pieces
- `app/`: files, JSON, command line and messages around the library

What the outside crates compute is stated in the contracts of a few small
wrappers; the doc comment of each says what is taken on trust.
