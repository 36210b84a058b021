//! The rules of a miner for Pow Free Fair Token: proof of work, the search for
//! nonces, the rounds of a session, and the text that goes in and out.
pub mod bindings;
pub mod bytes;
pub mod config;
pub mod identity;
pub mod pool;
pub mod proof_of_work;
pub mod search;
pub mod session;
pub mod status;
pub mod text;
pub mod u256;
pub mod watchdog;
pub mod worker;
