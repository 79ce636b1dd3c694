//! Sorting a list of package names into a fixed set of categories.
//!
//! The library holds the decisions: which categories exist and what their
//! files are called, which input lines ask for a choice, where each chosen
//! line goes, and what each output file holds. Reading the input, asking
//! the user and writing the files is left to the caller.

pub mod category;
pub mod text;
pub mod sorting;
pub mod laws;
