//! Verified core of an EVM execution bridge: a state-backend adapter that
//! makes a remote blockchain node look like a synchronous, locally queryable
//! account and storage store, plus the codecs and orchestration logic around
//! one bytecode invocation.
//!
//! All I/O (the node's domain socket, the RPC server, the bytecode
//! interpreter itself) lives outside this crate; here stand the pure
//! decision and encoding functions, each with a contract:
//!
//! - [`hexstr`]: hex text of byte strings, with round-trip proofs;
//! - [`values`]: 20-byte addresses, 32-byte words, and their text forms;
//! - [`codec`]: the binary wire form of state queries and values;
//! - [`backend`]: the per-field read policy over remote answers;
//! - [`orchestrator`]: request parsing and result packaging;
//! - [`errors`]: the caller-facing error taxonomy.

pub mod backend;
pub mod codec;
pub mod errors;
pub mod hexstr;
pub mod orchestrator;
pub mod values;
