//! The drinks on offer and the pins that serve them.

pub mod drink_option;
pub mod selection;
