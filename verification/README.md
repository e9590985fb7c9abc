# tessera

The decision core of the Tessera desktop compositor, written and proved in
Verus. It takes plain values and gives plain values back; what touches devices,
sockets, the clock of a running session or floating-point numbers stands
outside it.

## Layout

- `src/kms/`: direct display output on atomic kernel mode setting.
  - `modes`, `formats`, `color`, `select`, `assign`, `matching`, `plan`,
    `display`, `assemble`: which modes, controllers, planes and pixel layouts
    drive the connected outputs.
  - `request`, `commit`, `damage`, `cursor`: what an atomic update says.
  - `scanout`, `flips`, `present`, `surface`, `session`, `rounds`, `backend`:
    the life of framebuffers, frames, sprites and the session.
  - `devices`, `reports`: settings of input devices and reports of tablets.
- `src/nested/`: the compositor as a window of another one.
- `src/host.rs`: what both ways of showing a desktop have in common.
- `src/extensions/`: the protocol extensions, one module each.
- `src/dock_state.rs`, `src/devnode.rs`: stored dock state, device numbers.
- `src/geometry.rs`, `src/input.rs`, `src/seqs.rs`, `src/text.rs`: shared
  vocabulary.
- `tests/`: the library in use, on concrete values.
- `app/`: the surroundings. Kernel calls, event loops, files, and conversions
  to and from the types of other crates.

## Contracts

Functions state what they return or change over mathematical models. Where the
clock or the machine's byte order decides, the contract says what holds whatever
it gave, and the function beside it that takes it as an argument is exact.
Properties that span several functions are public proof functions, such as
`planned_outputs_tile_the_desktop`, `visible_framebuffers_are_kept`,
`clips_cover_all_damage` or `written_state_is_read_back`.

A few functions wrap calls into other crates and the standard library. Their
contracts are believed, not proved; each says in its doc comment what it claims.
They stand in `kms/request.rs`, `kms/formats.rs`, `kms/flips.rs`,
`kms/backend.rs` and `devnode.rs`.
