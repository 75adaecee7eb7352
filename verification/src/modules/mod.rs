//! Runtime modules.
pub mod accounts;
pub mod consensus_accounts;
pub mod core_module;
pub mod evm;
