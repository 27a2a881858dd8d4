//! Conflict detection between two Python-style package specifiers.
//!
//! A specifier such as `requests>=2.0.0` is split into a package name and a
//! version requirement; two specifiers for the same package conflict when no
//! version of a fixed probe set satisfies both requirements.

pub mod text;
pub mod requirement;
pub mod specifier;
pub mod conflict;
