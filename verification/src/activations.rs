//! Names of activation functions.

use vstd::prelude::*;

verus! {

/// The activation that hands its input on unchanged.
#[derive(Debug)]
pub struct Nope;

/// The rectified linear unit.
#[derive(Debug)]
pub struct ReLu;

/// The logistic function.
#[derive(Debug)]
pub struct Sigmoid;

/// The normalised exponential function.
#[derive(Debug)]
pub struct Softmax;

} // verus!
