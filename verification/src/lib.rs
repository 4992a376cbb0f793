//! Format specifiers for interpolation holes, `f"{expr:spec}"`.
//!
//! A hole may carry a specifier behind its `:`. It is read in one place and applied in
//! one place, so that a program shows the same text whether it is interpreted or
//! compiled:
//!
//! - [`format_spec`] reads specifiers, and [`grammar`] relates what is read to their
//!   grammar;
//! - [`render`] renders integers, floats and strings, on the numerals of [`digits`];
//! - [`lowering`] is what a code generator asks of a specifier;
//! - [`runtime`] holds the renderers that compiled programs call with a specifier in
//!   bytes, and [`fast`] those that they call with a specifier decoded beforehand; both
//!   write into a [`buffer`] of the caller;
//! - [`laws`] states what holds of all of these together, and [`results`] what comes out
//!   of a call for what goes in;
//! - [`probe`] is the workload of the map benchmarks.

pub mod buffer;
pub mod digits;
pub mod fast;
pub mod format_spec;
pub mod grammar;
pub mod laws;
pub mod lowering;
pub mod probe;
pub mod render;
pub mod results;
pub mod runtime;
pub mod text;
