//! An online monitor for Linear Temporal Logic over a trace of
//! externally supplied states: formulas are normalized to negation
//! normal form, evaluated one tick at a time into verdicts or
//! residual obligations, and violations are rendered as stable text.

pub mod eval;
pub mod laws;
pub mod ltl;
pub mod property;
pub mod registry;
pub mod render;
pub mod resolver;
pub mod runner;
pub mod stop;
pub mod syntax;
pub mod time;
pub mod tree;
pub mod worker;
