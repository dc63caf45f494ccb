//! Generation of random API keys in the fixed textual format
//! `akira_rust_<base64url-no-pad of 32 random bytes>`, together with a
//! handle type that models the transfer and release of key ownership.

pub mod codec;
pub mod keygen;
