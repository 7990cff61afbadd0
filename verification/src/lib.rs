//! Surrogate modelling for the global optimisation of expensive functions:
//! the structure, the parameter objects and the decisions of a Gaussian
//! process regression, of a mixture of such experts and of the optimisation
//! driver, with the floating-point kernels left to the caller.
pub mod ego;
pub mod errors;
pub mod gaussian_process;
pub mod matrix;
pub mod moe;
pub mod scalar;
pub mod utils;
