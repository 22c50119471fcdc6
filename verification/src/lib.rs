//! Access control for a card-operated appliance: Wiegand frame assembly and
//! validation, key identifier derivation and the registry of authorised keys.

pub mod artifactory;
pub mod io;
pub mod vending;
