# archive_enum

The code generator behind deriving rkyv's `Archive` for an enum, written in
Verus and verified against exact specifications of what it generates.

Given a plain model of the enum (its variants and fields, the names and
paths the derive chose, and what the rest of the derive computed for each
field), `derive::impl_enum` produces the generated source text as a
sequence of pieces: the archived enum, the resolver enum, the `u8` tag enum,
one `#[repr(C)]` layout struct per variant with fields, the requested
`PartialEq` / `PartialOrd` impls, and the `Archive` impl with its `resolve`
match. Each generator's result is stated exactly by a spec function over the
model, and `laws` proves properties that span the generators.

Layout:

- `src/tokens.rs`: pieces of source text and string literals.
- `src/text.rs`: numerals, binding names, raw-identifier prefixes.
- `src/model.rs`: the input model, `where` clauses, paths, and the
  sequence folds the specifications are written with.
- `src/archived.rs`, `src/resolve.rs`, `src/eq.rs`, `src/ord.rs`,
  `src/derive.rs`: the generators.
- `src/laws.rs`: cross-generator properties.
- `app/lib.rs`: conversion from `syn` types into the model, and of the
  generated pieces into a `proc_macro2::TokenStream`.
