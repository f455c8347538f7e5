//! Witness assignment and gate checking for the copy circuit of a zkEVM.
//!
//! Each copy event (CALLDATACOPY, CODECOPY, a LOG, a SHA3 preimage load, ...)
//! expands into paired read and write rows of a witness table. The library
//! builds that table and evaluates the circuit's gates over it; the proofs
//! show that every table it builds satisfies every gate.

pub mod error;
pub mod event;
pub mod field;
pub mod gates;
pub mod lookups;
pub mod table;
