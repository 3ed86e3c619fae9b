//! A persistent 256-bit counter and a timestamp-derived pseudo-random word.
//!
//! The crate is the computational core of a small on-chain contract. The host
//! that stores the counter and reports the block timestamp stays outside: it
//! hands the stored word and the timestamp in, and takes the results back.
//!
//! * [`encoding`]: base-256 digit strings and the numbers they denote.
//! * [`uint256`]: the 256-bit unsigned integer [`uint256::U256`].
//! * [`hash`]: the Keccak-256 primitive.
//! * [`contract`]: the counter [`contract::PureRandom`] and its operations.

pub mod contract;
pub mod encoding;
pub mod hash;
pub mod uint256;
