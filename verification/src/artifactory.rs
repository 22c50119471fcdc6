//! The registry of authorised keys and the identifiers it is indexed by.

pub mod enclave;
pub mod hex;
pub mod keys;
