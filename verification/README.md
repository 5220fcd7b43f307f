# vize_ex_nif

The logic behind the Elixir bindings of the Vize Vue.js toolchain, written
in Verus and proved against its contracts.

- `src/` is the library. It builds every answer handed back to the BEAM as a
  `term::Term` (atoms, strings, integers, lists, tuples, maps), and states
  in each function's `ensures` what that term is.
  - `ir`, `encode`: the Vapor IR as plain values and its encoding as maps
    tagged by `:kind`.
  - `lower`: lowering a template with vize into the library's IR, one small
    conversion per node kind.
  - `html`, `elements`, `markers`, `split`, `vapor`: the flat tag tree of a
    template, the element-to-tag map, attribute and marker injection, and the
    split of a block into static HTML pieces and dynamic slots.
  - `reparse`: when moving tag offsets after an injection agrees with
    reading the new HTML again.
  - `compile`, `css`, `sfc`: template, SSR and Vapor compiles, linting, style
    sheets and single-file components. The calls into vize sit behind small
    trusted wrappers. Where vize's result is a function of the arguments,
    the wrapper's contract names it, and the library's contracts are stated
    over those names. Nothing is claimed of the linter's diagnostics, nor of
    a component's compiled output (with a TypeScript script, vize reads the
    imported type files from disk); its parse and content hashes are named.
- `app/` holds the NIFs: argument decoding, the Erlang encoding of `Term`,
  and bundling style sheets from disk.
- `tests/` runs the library on concrete inputs, with the real vize crates.

`Cargo.toml` pins `parcel_selectors`, which no file names: it comes in
through lightningcss, which vize's style compile uses, and the pinned release
is the one that this lightningcss release builds with.
