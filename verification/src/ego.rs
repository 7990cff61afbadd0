//! The optimisation driver: its settings and the variables it works on.
pub mod mixint;
pub mod types;
