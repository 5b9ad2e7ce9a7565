//! The computation graph: nodes, the store that holds them, and the tapes that
//! record which nodes a tracked value depends on.

pub mod arena;
pub mod node;
pub mod tape;
