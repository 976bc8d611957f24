# rust_learning

Verified building blocks behind a set of small demonstrations of Rust's basic
types.

- `src/variables.rs` – reading a number from text (whitespace trimming and
  decimal parsing of an `i32`) and how shadowed bindings relate.
- `src/scalars.rs` – the checked, wrapping, saturating and overflowing
  additions of bytes, integer division that truncates toward zero, and the
  sizes of the scalar types.
- `src/stack_heap.rs` – borrowed and owned strings, their conversions, length
  against capacity, and the capacity steps seen while a string grows.
- `src/compound.rs` – tuples, arrays with checked and unchecked access, and
  vectors grown from arrays.
- `app/` – the demonstrations themselves, which print what the library
  computes.
