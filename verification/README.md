# cargo_intraconv

Converts path-based Markdown links in Rust documentation
(`/// [name]: ../mod1/struct.Type.html#method.call`) to intra-doc links
(`/// [name]: super::mod1::Type::call()`). Inline links are converted too:
`/// See [`Rotation`](struct.Rotation.html)` becomes `/// See [`Rotation`]`.

- `src/` is the library, written in Verus: each grammar the tool reads is a
  specification over the characters of a line, and each function is proved
  against its contract. Public proof functions named `law_*` state the
  properties that hold across calls (one action per line, web links kept
  when favored links are off, ignored links kept, and so on).
- `app/` is the command line program: argument parsing, the configuration
  file in TOML, the discovery of the crates of a cargo workspace, reading
  and writing files, and printing the text that the library builds for
  each change.
- `tests/` runs the library on concrete inputs.
