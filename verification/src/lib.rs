//! Reverse-mode automatic differentiation on dynamic computation graphs.
//!
//! Operations on tensors are evaluated at once. Where an operand is tracked,
//! the operation is also recorded as a node of a [`Graph`], and a backward pass
//! from any tracked tensor accumulates the gradients of that tensor with
//! respect to every node of its history.
//!
//! ```ignore
//! let mut graph = Graph::new();
//! let x = fill(&mut graph, Shape::new(1, 1, 1, 1), 2).unwrap();
//! let z = ops::mul(&mut graph, &x, &x).unwrap();
//! z.backward(&mut graph);
//! assert_eq!(*x.grad(&graph).data(&graph).elements(), vec![4]);
//! ```
//!
//! The engine works on any tensor type that offers the operations of
//! [`Numeric`]; [`IntTensor`] is one with exact integer arithmetic. The
//! module [`gradient`] states what a backward pass computes and proves it.

pub mod activations;
pub mod exact;
pub mod gen;
pub mod gradient;
pub mod graph;
pub mod losses;
pub mod numeric;
pub mod ops;
pub mod shape;
pub mod tensor;

pub use activations::{Nope, ReLu, Sigmoid, Softmax};
pub use exact::IntTensor;
pub use gen::{custom, eye, fill};
pub use gradient::Gradients;
pub use graph::arena::Graph;
pub use graph::node::{Node, NodeId};
pub use graph::tape::Tape;
pub use losses::{CrossEntropy, MeanSquaredError};
pub use numeric::Numeric;
pub use ops::{flatten, mm, relu, reshape, sum, OpError};
pub use shape::Shape;
pub use tensor::constant::Constant;
pub use tensor::variable::Variable;
pub use tensor::Tensor;
