# co3_derive

The logic of the `co3` procedural macros as a verified library: reading the
macros' attributes (`#[repr]`, `#[mineral]`, the inner attributes of an
`ffi!` block, `#[unpack]`, `#[id]`), symbol names and their defaults,
lifetime handling of exported signatures, the `#[erased(...)]` list of
tagged-dispatch groups and their checks, the signature of a method as a
free function sees it (receivers, `Self`, tag ids), where the items of a
declaration block end (bodies refused), the rewriting of declarations
before they are parsed, and the generated code itself: which code a type
deriving `FfiType` gets, and that code for opaque, transparent,
`#[repr(C)]` and primitive-repr types and for types without a `#[repr]`
(fieldless enums, enums with data, structs), `#[repr(C)]` equivalents,
the bounds of a dispatch wrapper, the sealed dispatch-set trait and its
impls, the block of an exported opaque type, the tag-id statements of an
imported drop wrapper, and the symbol name, body rewriting and placement
of handle ids of a polymorphic export.

- `src/` is the library, written in Verus. Token trees, attributes, types
  and signatures are modelled as plain values (`tokens`, `types`,
  `signature`); every public function states its result over spec functions
  of those models. Where `syn` is asked whether text is an expression, a
  closure, a type or a string literal, its answer comes back as a plain
  value that the verified functions take as an argument.
- `app/` is ordinary Rust around the library: conversion between `syn` /
  `proc_macro2` values and the models (including turning the parts of an
  `#[erased(...)]` list, located by the library, into `syn` values), spans
  and error reporting, and the entry points that the code generator calls
  with `syn` items. Where a generator needs an answer that other parts of
  the macro compute (a monomorphized selection, the id representation of an
  erased parameter, whether a type mentions a parameter), that answer is an
  argument of the entry point and of the verified function behind it.
- `tests/` holds the tests, which run the library with `syn` linked.
