//! Calendar objects: their properties, and reading and writing them whole.

pub mod methods;
pub mod resource;
