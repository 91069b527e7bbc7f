//! Session permissions: the keys issued to a session under an address.

pub mod create;
