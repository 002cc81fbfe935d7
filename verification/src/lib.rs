//! A solver for the Curta "alchemy" puzzle: finding runtime code whose
//! code hash starts with a required prefix, computing the addresses of the
//! contracts that take part, and planning the bundle of transactions that
//! solves the puzzle in one block.

pub mod bigendian;
pub mod bundle;
pub mod clone;
pub mod codehash;
pub mod evm;
pub mod hexcodec;
pub mod keccak;
pub mod submit;
