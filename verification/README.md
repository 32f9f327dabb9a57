# flamingo

Trim a Nix configuration like a pruner: point flamingo at a NixOS flake,
pick the modules a new machine needs in a terminal interface, and export a
fresh, self-contained flake for a new host.

The library under `src/` is written in Verus: each function carries a
contract, and Verus proves that the code meets it.

- `flake.rs`, `module.rs`, `recover.rs`, `metadata.rs`: the modules of a
  flake, how they nest into a tree, textual recovery of what the Nix
  evaluation cannot see, the added flags that cascade down the tree, and the
  flake's display metadata.
- `trim/`: the export. `deps.rs` finds the local files a module depends on
  (path literals, step by step as a scan), `generate.rs` lifts the source's
  inputs and writes flake-parts host modules, `standalone.rs` writes the
  exported config's `flake.nix` (wiring the host and the exported modules by
  path) and its `hosts/<hostname>/` scaffold, and `mod.rs` plans the new
  config and the report.
- `config/`: key bindings and the modules to mark as added on startup.
- `tui/`: the interface state and how each command changes it, and the
  text that the interface shows.
- `path.rs`, `text.rs`, `args.rs`: paths, characters and flake references.

`app/` is the program around the library: command-line arguments, reading
`config.toml`, running `nix` and `git`, the file system work of an export,
and drawing the interface with ratatui.
