//! A minimal ledger runtime: independent state modules composed under one
//! configuration and driven by a block executor.

pub mod numeric;
pub mod storage;
pub mod support;
pub mod system;
pub mod balances;
pub mod proof_of_existence;
pub mod types;
pub mod runtime;
