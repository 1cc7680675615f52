//! Reading, authenticating and decrypting password-vault containers.

pub mod attachment;
pub mod bytes;
pub mod crypto;
pub mod error;
pub mod folder;
pub mod json;
pub mod key;
pub mod op_data_01;
pub mod profile;
pub mod vault;
