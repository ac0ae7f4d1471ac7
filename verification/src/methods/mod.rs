//! The generic engines, written once for every resource kind.

pub mod propfind;
pub mod propfind_laws;
pub mod propertyupdate;
pub mod proppatch;
pub mod proppatch_laws;
