//! An on-chain entry point that relays a swap to an external AMM program,
//! directly or through a signed re-invocation of itself.
//!
//! `model` holds the plain-value description of accounts and cross-program
//! calls, `dispatch` decides which calls an instruction issues, and
//! `program` carries those decisions out against the host runtime.

pub mod model;
pub mod dispatch;
pub mod program;
pub mod laws;
