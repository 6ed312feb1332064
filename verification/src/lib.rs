//! Core logic of a pooled guest-module execution service.
//!
//! The library holds the verified parts: the execution-pool state machine
//! (generation tagging, store recycling, concurrency accounting), the
//! host-call return-code contract, the row-to-JSON envelope encoder, the
//! reload candidate ordering, and the small string rules of the service
//! surface. The unverified shell around it (HTTP, the VM embedding, the
//! backend connection pools) drives these functions and obeys their
//! contracts.

pub mod bridge;
pub mod config;
pub mod json;
pub mod pg;
pub mod pool;
pub mod reload;
pub mod shape;
pub mod surface;
pub mod text;
