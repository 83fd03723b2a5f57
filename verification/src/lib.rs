//! The terms that Python values and operations compile to.
//!
//! A Python value is a type and a term (`pyterm`). Operations on values build
//! new terms or are refused (`ops`, `arrays`, `bits`, `classes`), inputs are
//! declared and put together from variables (`python`), and constants are
//! shown (`pretty`, and `keys` for which elements of an array are). What each
//! operation builds is stated over the views of types (`ty`) and terms (`ir`).
//!
//! The laws of the library come on top of that. Every operation keeps values
//! well typed (`typing`, `typed`, `typed_data`, `typed_inputs`). Terms take
//! values as their variables do (`meaning`), and each operation means what its
//! name says (`meaning_numbers`, `meaning_data`, `meaning_inputs`). What each
//! operation accepts and refuses, and what type it gives, is in `refusals`;
//! what the variables of an input are is in `input_laws`, and that their names
//! differ in `input_names`; what texts write is in `text_laws`. Views lose
//! nothing of what they view (`views`), and the rest is in `laws`.
pub mod arrays;
pub mod bits;
pub mod classes;
pub mod error;
pub mod field;
pub mod input_laws;
pub mod input_names;
pub mod integer;
pub mod ir;
pub mod keys;
pub mod laws;
pub mod meaning;
pub mod meaning_data;
pub mod meaning_inputs;
pub mod meaning_numbers;
pub mod names;
pub mod ops;
pub mod pretty;
pub mod pyterm;
pub mod python;
pub mod refusals;
pub mod text_laws;
pub mod ty;
pub mod typed;
pub mod typed_data;
pub mod typed_inputs;
pub mod typing;
pub mod views;
