//! Workcell tooling selectors.

pub mod tool;

pub use tool::EOATType;
