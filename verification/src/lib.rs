//! A pseudo-terminal session engine: the state kept for each shell session
//! (a bounded replay buffer of recent output and the slot for the one
//! currently attached output sink), the registry of sessions by id, and the
//! pure decision logic around them. All operating-system work (allocating
//! pseudo-terminals, spawning processes, reading and writing bytes) is left
//! to the host application, which drives this engine with plain values.

pub mod config;
pub mod cwd;
pub mod registry;
pub mod replay;
pub mod session;
