//! Model-compilation and pre-filtering core of a batch-auction settlement
//! solver.
//!
//! Given a set of user orders and the available on-chain liquidity, this
//! library discards orders that are not economically viable to settle,
//! compiles the remaining orders and liquidity into a token-indexed
//! optimization model, caches the compiled model per auction id, and plans
//! the deadline-bounded solve pipeline.  All monetary arithmetic is exact
//! rational arithmetic over 128-bit integers.

pub mod arith;
pub mod buffers;
pub mod cache;
pub mod compile;
pub mod fee_filter;
pub mod gas_model;
pub mod graph;
pub mod liquidity;
pub mod model;
pub mod orchestrator;
pub mod orders;
pub mod rational;
pub mod table;
