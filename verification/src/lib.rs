//! A CalDAV/WebDAV protocol core: typed per-resource property models, the
//! PROPFIND / PROPPATCH / REPORT engines built on them, and the XML binding
//! layer that carries requests and multistatus responses.

pub mod auth;
pub mod calendar;
pub mod calendar_object;
pub mod elements;
pub mod error;
pub mod http;
pub mod memory_store;
pub mod methods;
pub mod multistatus;
pub mod multistatus_xml;
pub mod privileges;
pub mod resource;
pub mod routes;
pub mod store;
pub mod text;
pub mod xml;
