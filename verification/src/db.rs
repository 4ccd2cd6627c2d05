//! What the adapters of particular engines have in common with the library.

pub mod rocks;
