//! Calendar collections: their properties, and the queries on them.

pub mod prop;
pub mod report;
pub mod report_request;
pub mod resource;
