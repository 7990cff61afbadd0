//! Mixture of Gaussian process experts: its settings and the types they are
//! made of.
pub mod clustering;
pub mod parameters;
pub mod types;
