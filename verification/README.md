# Flick

A desktop media player for libraries of videos and images. The library in `src/` holds everything
the program decides, with contracts that Verus proves; `app/` is the window, the player and the
disk around it.

## How it is laid out

- `src/playlist/` queues of media: adding, removing, moving, searching, shuffling, what plays next.
- `src/library/` telling media by name and content, and collecting it from folders in batches.
- `src/import.rs` what becomes of files that were picked, dropped or named on the command line.
- `src/thumbnails/` content hashes, where posters and previews are kept, and how they are made.
- `src/ui_bridge/` the state of the program. Every event is a step from one state to the next, and
  leaves a list of effects for the window and the player to carry out.
- `src/file_manager.rs` showing a file in the system's file manager.
- `src/path.rs`, `src/path_key.rs`, `src/text.rs`, `src/table.rs` what the rest is built on.
- `app/` carries the effects out: Slint for the window, libmpv for playback, threads and files.
  `i-slint-core`, the part of Slint that loads pictures, is named in `Cargo.toml` to switch its
  decoders on.

A state is described by `AppView` in `src/ui_bridge/state.rs`, a queue by `QueueView` in
`src/playlist/model.rs`. Contracts are stated over these. What holds across several steps is stated
by the public proof functions, most of them in the two files named `laws.rs`.

## What is taken on trust

Functions marked `external_body`, and the two `assume_specification` items in `src/text.rs`, stand
for calls into the standard library and into `rand`, `sha1` and `image`. The comment above each one
says what is claimed of the call.
