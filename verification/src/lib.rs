//! Resolution and translation engine for vendor hardware-description
//! documents: walks a generic labeled tree, resolves named cross-references
//! (instances to modules, register-group stubs to named groups, bitfields to
//! value groups) into an owned device model, and re-projects that model into
//! a standardized register/field representation.

pub mod address;
pub mod device;
pub mod err;
pub mod interrupt;
pub mod num;
pub mod peripheral;
pub mod register;
pub mod svd;
pub mod tree;

pub use crate::device::parse;
pub use crate::num::parse_uint;
pub use crate::svd::device;
