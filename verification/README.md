# reveal_viewer

The logic of Reveal, a fast image viewer, written in Verus: every function in
`src/` carries a contract that Verus proves.

- `src/` is the library: folder listings and navigation, the natural order of
  file names, the decode cache and its eviction, the load queue and the loads
  on their way, the viewing session and its folder scans, animation playback,
  pixel orientation and magnification, key bindings and the settings editor,
  what the settings window, the update notice and the context menu show,
  update versions and checks, format tables, desktop registration outcomes,
  and the texts the window shows. Calls into outside crates (`image`, `exif`,
  `lexical-sort` and `directories`, among others) sit behind small trusted
  wrappers whose contracts say what the crates document.
- `tests/` runs the library with the real outside crates linked.
- `app/` is a thin command-line program around the library: it reads folders
  and files, runs the decoders that work on floating point, spawns the loader
  and scan threads, and reads and writes the configuration.

Verify with Verus on `src/lib.rs`; the laws of the library are the public
proof functions whose names begin with `law_`.
