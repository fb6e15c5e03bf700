# whiplash

The verified core of a desktop music player: the rules it applies to audio
files, library records, device listings, drives and folders, and to its Spotify
and YouTube features, written in Verus and proved against their contracts.

- `src/` is the library. Each module states its behaviour in `requires` /
  `ensures` over mathematical views (`Seq`, `Option`, integers); `laws.rs` holds
  the properties that span several functions. Calls into `sha2`, `base64`,
  `rand`, `regex`, `serde_json` and a few `std` functions sit behind small trusted wrappers
  whose doc comments say what is assumed of them.
- `tests/` runs the library on concrete inputs.
- `app/` is the unverified shell: SQLite through `rusqlite`, audio through
  `rodio` and `symphonia`, tags through `audiotags`, folder walks, HTTP through
  `reqwest` and child processes. It hands the library plain values and acts on
  what comes back.

Durations, which the player keeps as `f64`, appear in the library as the bit
pattern of the `f64` (`f64::to_bits`), carried through unchanged.
