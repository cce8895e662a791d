//! Modules and visibility: private helpers behind public functions, structs
//! with private fields, and re-exported items.
pub mod api;
pub mod backend;
pub mod calculator;
pub mod math;
pub mod shapes;
