# miniextendr_macros

The logic of the miniextendr procedural macros, written in Verus and
verified: what R wrapper code, roxygen2 documentation and C-wrapper plans
the macros produce for a user's Rust items.

- `src/` is the verified library. It works on plain models of the syntax it
  reads: `types::TypeModel` for types, `tokens::TokenTree` for token
  streams, and small structs for attributes and items. Each public function
  states its result in its contract; the laws of the library are public
  proof functions named `lemma_*`.
- `tests/` runs the library on concrete inputs, building the models from
  `syn` syntax trees.
- `app/` is the procedural-macro side: it turns `syn` trees into the models,
  calls the library and writes the answers back as tokens and diagnostics.

The library calls one outside function, `syn::LitStr` parsing (for the value
of a string literal in an attribute); a few `std` string and character
operations stand behind trusted wrappers in `src/text.rs`.
