//! Names of loss functions.

use vstd::prelude::*;

verus! {

/// The mean of the squared differences between output and target.
pub struct MeanSquaredError;

/// The cross entropy between output and target.
pub struct CrossEntropy;

} // verus!
