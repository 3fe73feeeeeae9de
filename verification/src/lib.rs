//! A verified core for a rollup request/response bridge: an ABI codec over
//! bounds-checked byte buffers, a portal deposit decoder, and the driver's
//! decision logic, with the hash and hex primitives supplied by outside crates.

pub mod errors;
pub mod bytes;
pub mod hexutil;
pub mod buf;
pub mod abi;
pub mod keccak;
pub mod deposit;
pub mod rollup;
