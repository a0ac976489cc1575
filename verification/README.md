# integra_desktop

A verified library for converting Brazilian fiscal documents (NFS-e,
NF-e and SPED texts) into Prosoft fixed-width and CSV layouts, together
with the licensing decisions of the desktop application.

- `src/` is the library, written in Verus. Every public function states
  in its contract what it returns, and the laws of the library (round
  trips, idempotent normalizations, block 9 counts of a SPED file, the
  order of imported notes, ...) are public proof functions.
- `tests/` runs the library on concrete values.
- `app/` is the shell around it: files, archives, HTTP calls to the
  licensing service, the clock and the machine's own description, and
  the amounts of service documents, which are floating point.

Verify with `verus` on `src/lib.rs`; the outside crates it calls
(`chrono`, `regex`, `roxmltree`, `uuid`, `sha2`, `hex`, `base64`) are
reached through a small number of trusted wrappers, each documented
above its declaration.
