//! What can go wrong while a surrogate is configured, trained or queried.
use vstd::prelude::*;

verus! {

/// The kinds of failure of the Gaussian process engine and of the driver.
#[derive(Clone, Copy, Debug, PartialEq, Eq, Structural)]
pub enum EgoboxError {
    /// A shape mismatch, an empty design or a setting outside its range.
    InvalidInput,
    /// A factorisation or a triangular solve did not go through.
    LinalgFailure,
    /// The correlation lengths tried make the fit ill conditioned; another
    /// candidate may do.
    LikelihoodIllConditioned,
    /// The regression basis does not go with the observations, whatever the
    /// correlation lengths.
    LikelihoodIncompatibleBasis,
    /// The acquisition optimiser found nothing from any of its starts.
    OptimizerFailure,
    /// The mixture could not be fitted, restarts included.
    ClusteringFailure,
}

impl EgoboxError {
    /// Only an ill-conditioned candidate is worth another try.
    pub open spec fn retryable(self) -> bool {
        self == EgoboxError::LikelihoodIllConditioned
    }

    /// Tells whether trying other correlation lengths can help.
    pub fn is_retryable(&self) -> (r: bool)
        ensures
            r == self.retryable(),
    {
        match self {
            EgoboxError::LikelihoodIllConditioned => true,
            _ => false,
        }
    }

    /// A sentence for the person who reads the failure.
    pub fn message(&self) -> (text: String)
        ensures
            text@ == match *self {
                EgoboxError::InvalidInput => "invalid input"@,
                EgoboxError::LinalgFailure => "linear algebra failure"@,
                EgoboxError::LikelihoodIllConditioned =>
                    "ft is too ill conditioned, try another theta again"@,
                EgoboxError::LikelihoodIncompatibleBasis =>
                    "F is too ill conditioned. Poor combination of regression model and observations."@,
                EgoboxError::OptimizerFailure => "optimizer failure"@,
                EgoboxError::ClusteringFailure => "clustering failure"@,
            },
    {
        match self {
            EgoboxError::InvalidInput => "invalid input".to_owned(),
            EgoboxError::LinalgFailure => "linear algebra failure".to_owned(),
            EgoboxError::LikelihoodIllConditioned =>
                "ft is too ill conditioned, try another theta again".to_owned(),
            EgoboxError::LikelihoodIncompatibleBasis =>
                "F is too ill conditioned. Poor combination of regression model and observations.".to_owned(),
            EgoboxError::OptimizerFailure => "optimizer failure".to_owned(),
            EgoboxError::ClusteringFailure => "clustering failure".to_owned(),
        }
    }
}

/// A setting of the mixture of experts that cannot be used.
#[derive(Debug)]
pub enum MoeError {
    /// The setting and what is wrong with it.
    InvalidValueError(String),
}

impl MoeError {
    /// The sentence that the error carries.
    pub open spec fn text(self) -> Seq<char> {
        match self {
            MoeError::InvalidValueError(s) => s@,
        }
    }

    /// A sentence for the person who reads the failure.
    pub fn message(&self) -> (text: String)
        ensures
            text@ == self.text(),
    {
        match self {
            MoeError::InvalidValueError(s) => s.clone(),
        }
    }
}

} // verus!
