//! A bracket-pair syntax tree: the nodes, the invariants that keep it
//! additive and balanced, and the queries an incremental builder relies on.

pub mod ast;
pub mod ids;
pub mod indent;
pub mod model;
