# jettison

The logic of a Nix plugin that builds Rust packages with one derivation per
crate of the dependency graph, written in Verus: every function of `src/`
carries a contract that Verus proves.

- `src/` is the verified library:
  - the Nix values the plugin reads and writes, modelled as a heap of nodes
    (`value`, `attrset`, `list`, `merge`, `builder`, `callable`, `primop`,
    `error`, `namespace`, `naming`, `utf8_cstr`, `lex`, `text`);
  - the `Cargo.lock` parser, what it yields for a whole file written as
    `[[package]]` blocks, and the vendoring of dependencies (`cargo_lock`,
    `lock_blocks`, `vendor`);
  - the build graph of a package and the arguments and build phases of each
    derivation (`graph`, `targets`, `renames`, `rustc`, `phases`,
    `crate_args`, `build_crate`, `build_lib`, `package`), and the attribute
    sets each crate's derivation is made with (`derivation`);
  - what the derive macros of the bindings check and decide (`derive`), and
    the attribute sets derived from a struct's fields (`derived_attrset`).
- `tests/` runs the library on concrete values.
- `app/` holds what touches the file system and the platform, and checks
  that a `Cargo.lock`'s sources can be fetched before the library plans
  their vendoring.

The calls into `percent-encoding`, `semver` and `shell-escape`, and into the
few parts of std that Verus has no specification for, go through small
trusted functions whose contracts state what those functions document.
