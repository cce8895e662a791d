//! Verified core of a collection of small Rust teaching examples: ownership,
//! borrowing, structs and enums, pattern matching, error handling, traits and
//! generics, lifetimes, closures, iterators and smart pointers.
pub mod async_await;
pub mod basics;
pub mod borrowing;
pub mod closures;
pub mod error_handling;
pub mod iterators;
pub mod lifetime;
pub mod macros;
pub mod modules;
pub mod ownership;
pub mod pattern_match;
pub mod smart_pointers;
pub mod struct_enum;
pub mod text;
pub mod trait_generics;
