# lib — verified Rust teaching examples

A Verus library holding the computational core of a set of Rust teaching
examples (ownership, borrowing, structs and enums, pattern matching, error
handling, traits and generics, lifetimes, closures, iterators, smart pointers,
async, modules and macros), each function with a `requires`/`ensures`
contract proved by Verus.

Layout:

- `src/` — the verified library, one module per topic; `text.rs` holds the
  shared string specifications (UTF-8 byte length, Unicode whitespace, words,
  decimal rendering, integer parsing) and the few trusted calls into `std`.
- `tests/` — executable tests of the library.
- `app/` — the example program: it runs every demonstration and prints what
  it shows, calling the library for everything it computes. Threads, file
  access, `Drop` side effects, floating-point shapes, trait objects and the
  async executor live only here.
