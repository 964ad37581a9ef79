//! How safe the translated Rust actually is.
//!
//! A translation can pass every test while being mechanically equivalent to a
//! transliteration, so the test pass rate cannot tell a genuine improvement from
//! `unsafe` merely relocated. This module measures the difference, by syntax
//! tree rather than by text.
//!
//! Four rules decide whether the numbers mean anything:
//!
//! 1. **Type aliases are resolved.** A `*mut T` reached through
//!    `pub type png_bytep = *mut png_byte;` is a path, not a pointer.
//! 2. **Both export spellings are matched**, `#[no_mangle]` and
//!    `#[unsafe(no_mangle)]`.
//! 3. **An unsafe region runs from the `unsafe` token to the closing brace**,
//!    never from the attributes and doc comments above it.
//! 4. **Agent-written tests are counted apart from the library.**
//!
//! A file that cannot be parsed is recorded and left out of both the numerator
//! and the denominator. Counters saturate: a count is exact as long as it fits
//! in a `usize`.

pub mod c_source;
pub mod counts;
pub mod laws;
pub mod meaning;
pub mod pointers;
pub mod program;
pub mod report;
pub mod scope;
pub mod totals;
